//! The hardware and build reports.

use vstd::prelude::*;
use crate::device::{command2, command3, property_command};
use crate::number::{decimal, parse_u64, parse_unsigned, push_decimal};
use crate::text::{
    chars_of, contains, contains_exec, first_some, lemma_first_some_step, lemma_first_some_whole,
    lines, opt_text, owned, push_str, split_lines, split_tokens, starts_with, starts_with_exec,
    string_of, string_views, tokens, views,
};

verus! {

/// The hardware report; each field is absent when it could not be read.
pub struct HardwareInfo {
    pub cpu_architecture: Option<String>,
    pub cpu_abi_list: Option<String>,
    pub total_memory: Option<String>,
    pub available_memory: Option<String>,
    pub internal_storage_total: Option<String>,
    pub internal_storage_available: Option<String>,
    pub manufacturer: Option<String>,
    pub brand: Option<String>,
    pub board: Option<String>,
    pub hardware: Option<String>,
}

/// Tenths of a gigabyte in `mb` megabytes, rounded to nearest, ties to even.
pub open spec fn gb_tenths(mb: int) -> int {
    let q = (mb * 10) / 1024;
    let r = (mb * 10) % 1024;
    if r > 512 || (r == 512 && q % 2 == 1) {
        q + 1
    } else {
        q
    }
}

/// An amount of `kb` kilobytes in whole megabytes, or in gigabytes with one
/// decimal from 1024 megabytes on.
pub open spec fn memory_text(kb: int) -> Seq<char> {
    let mb = kb / 1024;
    if mb >= 1024 {
        decimal((gb_tenths(mb) / 10) as nat) + seq!['.'] + decimal((gb_tenths(mb) % 10) as nat)
            + " GB"@
    } else {
        decimal(mb as nat) + " MB"@
    }
}

/// The amount `kb` kilobytes, written for people.
pub fn format_memory(kb: u64) -> (r: String)
    ensures
        r@ == memory_text(kb as int),
{
    let mb = kb / 1024;
    let mut r = String::new();
    if mb >= 1024 {
        assert(mb * 10 <= u64::MAX) by (nonlinear_arith)
            requires
                mb == kb / 1024,
        ;
        let n = mb * 10;
        let q = n / 1024;
        let rem = n % 1024;
        let t = if rem > 512 || (rem == 512 && q % 2 == 1) {
            q + 1
        } else {
            q
        };
        assert(t == gb_tenths(mb as int));
        push_decimal(&mut r, t / 10);
        r.push('.');
        push_decimal(&mut r, t % 10);
        push_str(&mut r, " GB");
    } else {
        push_decimal(&mut r, mb);
        push_str(&mut r, " MB");
    }
    assert(r@ =~= memory_text(kb as int));
    r
}

/// What a memory-report line gives for `field`: nothing unless it starts with
/// `field`; then the amount its second column holds, if that is a number.
pub open spec fn memory_line(line: Seq<char>, field: Seq<char>) -> Option<Option<Seq<char>>> {
    if starts_with(line, field) {
        let ts = tokens(line);
        Some(
            if ts.len() > 1 {
                match parse_unsigned(ts[1], u64::MAX as int) {
                    Some(kb) => Some(memory_text(kb)),
                    None => None,
                }
            } else {
                None
            },
        )
    } else {
        None
    }
}

pub open spec fn memory_rule(field: Seq<char>) -> spec_fn(Seq<char>) -> Option<Option<Seq<char>>> {
    |l: Seq<char>| memory_line(l, field)
}

/// The amount that the memory report `text` gives for `field`, read from the
/// first line that starts with `field`.
pub open spec fn memory_field(text: Seq<char>, field: Seq<char>) -> Option<Seq<char>> {
    match first_some(lines(text), memory_rule(field)) {
        Some(x) => x,
        None => None,
    }
}

/// The amount that the memory report `text` (as `/proc/meminfo` writes it)
/// gives for `field`, such as `MemTotal`.
pub fn parse_memory_info(text: &str, field: &str) -> (r: Option<String>)
    ensures
        opt_text(r) == memory_field(text@, field@),
{
    let ls = split_lines(&chars_of(text));
    let f = chars_of(field);
    let mut k: usize = 0;
    proof {
        lemma_first_some_whole(views(ls@), memory_rule(field@));
    }
    while k < ls.len()
        invariant
            k <= ls@.len(),
            views(ls@) == lines(text@),
            f@ == field@,
            first_some(lines(text@), memory_rule(field@)) == first_some(
                views(ls@).subrange(k as int, ls@.len() as int),
                memory_rule(field@),
            ),
        decreases ls@.len() - k,
    {
        proof {
            lemma_first_some_step(views(ls@), memory_rule(field@), k as int);
        }
        let line = &ls[k];
        assert(views(ls@)[k as int] == line@);
        assert((memory_rule(field@))(line@) == memory_line(line@, field@));
        if starts_with_exec(line, &f) {
            let ts = split_tokens(line);
            if ts.len() > 1 {
                assert(views(ts@)[1] == ts@[1]@);
                return match parse_u64(&ts[1]) {
                    Some(kb) => Some(format_memory(kb)),
                    None => None,
                };
            }
            return None;
        }
        k += 1;
    }
    proof {
        lemma_first_some_whole(views(ls@), memory_rule(field@));
    }
    None
}

/// Which size a storage report is asked for.
#[derive(Clone, Copy, PartialEq, Eq, Structural)]
pub enum StorageColumn {
    Total,
    Available,
}

pub open spec fn column_index(c: StorageColumn) -> int {
    match c {
        StorageColumn::Total => 1,
        StorageColumn::Available => 3,
    }
}

/// What a storage-report line gives: the asked column of the first line that
/// names `path` or a device under `/dev/` and has at least four columns.
pub open spec fn storage_line(line: Seq<char>, path: Seq<char>, col: StorageColumn) -> Option<
    Seq<char>,
> {
    let ts = tokens(line);
    if (contains(line, path) || starts_with(line, "/dev/"@)) && ts.len() >= 4 {
        Some(ts[column_index(col)])
    } else {
        None
    }
}

pub open spec fn storage_rule(path: Seq<char>, col: StorageColumn) -> spec_fn(Seq<char>) -> Option<
    Seq<char>,
> {
    |l: Seq<char>| storage_line(l, path, col)
}

/// The size, as the report writes it, that the storage report `text` (as
/// `df -h` writes it) gives for `path`.
pub fn get_storage_info(text: &str, path: &str, col: StorageColumn) -> (r: Option<String>)
    ensures
        opt_text(r) == first_some(lines(text@), storage_rule(path@, col)),
{
    let ls = split_lines(&chars_of(text));
    let p = chars_of(path);
    let dev = chars_of("/dev/");
    let mut k: usize = 0;
    proof {
        lemma_first_some_whole(views(ls@), storage_rule(path@, col));
    }
    while k < ls.len()
        invariant
            k <= ls@.len(),
            views(ls@) == lines(text@),
            p@ == path@,
            dev@ == "/dev/"@,
            first_some(lines(text@), storage_rule(path@, col)) == first_some(
                views(ls@).subrange(k as int, ls@.len() as int),
                storage_rule(path@, col),
            ),
        decreases ls@.len() - k,
    {
        proof {
            lemma_first_some_step(views(ls@), storage_rule(path@, col), k as int);
        }
        let line = &ls[k];
        assert(views(ls@)[k as int] == line@);
        assert((storage_rule(path@, col))(line@) == storage_line(line@, path@, col));
        if contains_exec(line, &p) || starts_with_exec(line, &dev) {
            let ts = split_tokens(line);
            if ts.len() >= 4 {
                let i: usize = match col {
                    StorageColumn::Total => 1,
                    StorageColumn::Available => 3,
                };
                assert(views(ts@)[i as int] == ts@[i as int]@);
                return Some(string_of(&ts[i]));
            }
        }
        k += 1;
    }
    proof {
        lemma_first_some_whole(views(ls@), storage_rule(path@, col));
    }
    None
}

/// The commands the hardware report reads, in order: the CPU ABI, the ABI
/// list, the memory report, the storage report for `/data`, the
/// manufacturer, brand, board and hardware properties.
pub fn hardware_commands() -> (r: Vec<Vec<String>>)
    ensures
        r@.len() == 8,
        string_views(r@[0]@) == seq!["getprop"@, "ro.product.cpu.abi"@],
        string_views(r@[1]@) == seq!["getprop"@, "ro.product.cpu.abilist"@],
        string_views(r@[2]@) == seq!["cat"@, "/proc/meminfo"@],
        string_views(r@[3]@) == seq!["df"@, "-h"@, "/data"@],
        string_views(r@[4]@) == seq!["getprop"@, "ro.product.manufacturer"@],
        string_views(r@[5]@) == seq!["getprop"@, "ro.product.brand"@],
        string_views(r@[6]@) == seq!["getprop"@, "ro.product.board"@],
        string_views(r@[7]@) == seq!["getprop"@, "ro.hardware"@],
{
    let mut r: Vec<Vec<String>> = Vec::new();
    r.push(property_command("ro.product.cpu.abi"));
    r.push(property_command("ro.product.cpu.abilist"));
    r.push(command2("cat", "/proc/meminfo"));
    r.push(command3("df", "-h", "/data"));
    r.push(property_command("ro.product.manufacturer"));
    r.push(property_command("ro.product.brand"));
    r.push(property_command("ro.product.board"));
    r.push(property_command("ro.hardware"));
    r
}

fn copy_text(o: &Option<String>) -> (r: Option<String>)
    ensures
        opt_text(r) == opt_text(*o),
{
    match o {
        Some(s) => Some(owned(s.as_str())),
        None => None,
    }
}

fn memory_of(o: &Option<String>, field: &str) -> (r: Option<String>)
    ensures
        opt_text(r) == match opt_text(*o) {
            Some(t) => memory_field(t, field@),
            None => None,
        },
{
    match o {
        Some(t) => parse_memory_info(t.as_str(), field),
        None => None,
    }
}

fn storage_of(o: &Option<String>, col: StorageColumn) -> (r: Option<String>)
    ensures
        opt_text(r) == match opt_text(*o) {
            Some(t) => first_some(lines(t), storage_rule("/data"@, col)),
            None => None,
        },
{
    match o {
        Some(t) => get_storage_info(t.as_str(), "/data", col),
        None => None,
    }
}

/// The hardware report from the outputs of `hardware_commands`, in the same
/// order (each absent when its command failed).
pub fn get_hardware_info(outputs: &Vec<Option<String>>) -> (r: HardwareInfo)
    requires
        outputs@.len() == 8,
    ensures
        ({
            let o = outputs@;
            let mem = |f: Seq<char>|
                match opt_text(o[2]) {
                    Some(t) => memory_field(t, f),
                    None => None,
                };
            let disk = |c: StorageColumn|
                match opt_text(o[3]) {
                    Some(t) => first_some(lines(t), storage_rule("/data"@, c)),
                    None => None,
                };
            &&& opt_text(r.cpu_architecture) == opt_text(o[0])
            &&& opt_text(r.cpu_abi_list) == opt_text(o[1])
            &&& opt_text(r.total_memory) == mem("MemTotal"@)
            &&& opt_text(r.available_memory) == mem("MemAvailable"@)
            &&& opt_text(r.internal_storage_total) == disk(StorageColumn::Total)
            &&& opt_text(r.internal_storage_available) == disk(StorageColumn::Available)
            &&& opt_text(r.manufacturer) == opt_text(o[4])
            &&& opt_text(r.brand) == opt_text(o[5])
            &&& opt_text(r.board) == opt_text(o[6])
            &&& opt_text(r.hardware) == opt_text(o[7])
        }),
{
    HardwareInfo {
        cpu_architecture: copy_text(&outputs[0]),
        cpu_abi_list: copy_text(&outputs[1]),
        total_memory: memory_of(&outputs[2], "MemTotal"),
        available_memory: memory_of(&outputs[2], "MemAvailable"),
        internal_storage_total: storage_of(&outputs[3], StorageColumn::Total),
        internal_storage_available: storage_of(&outputs[3], StorageColumn::Available),
        manufacturer: copy_text(&outputs[4]),
        brand: copy_text(&outputs[5]),
        board: copy_text(&outputs[6]),
        hardware: copy_text(&outputs[7]),
    }
}

/// The build report; each field is absent when its property could not be read.
pub struct BuildInfo {
    pub fingerprint: Option<String>,
    pub build_date: Option<String>,
    pub build_user: Option<String>,
    pub build_host: Option<String>,
    pub security_patch: Option<String>,
    pub bootloader: Option<String>,
    pub baseband: Option<String>,
    pub build_id: Option<String>,
    pub build_tags: Option<String>,
    pub build_type: Option<String>,
}

/// The properties the build report reads, in field order.
pub fn build_commands() -> (r: Vec<Vec<String>>)
    ensures
        r@.len() == 10,
        string_views(r@[0]@) == seq!["getprop"@, "ro.build.fingerprint"@],
        string_views(r@[1]@) == seq!["getprop"@, "ro.build.date"@],
        string_views(r@[2]@) == seq!["getprop"@, "ro.build.user"@],
        string_views(r@[3]@) == seq!["getprop"@, "ro.build.host"@],
        string_views(r@[4]@) == seq!["getprop"@, "ro.build.version.security_patch"@],
        string_views(r@[5]@) == seq!["getprop"@, "ro.bootloader"@],
        string_views(r@[6]@) == seq!["getprop"@, "ro.baseband"@],
        string_views(r@[7]@) == seq!["getprop"@, "ro.build.id"@],
        string_views(r@[8]@) == seq!["getprop"@, "ro.build.tags"@],
        string_views(r@[9]@) == seq!["getprop"@, "ro.build.type"@],
{
    let mut r: Vec<Vec<String>> = Vec::new();
    r.push(property_command("ro.build.fingerprint"));
    r.push(property_command("ro.build.date"));
    r.push(property_command("ro.build.user"));
    r.push(property_command("ro.build.host"));
    r.push(property_command("ro.build.version.security_patch"));
    r.push(property_command("ro.bootloader"));
    r.push(property_command("ro.baseband"));
    r.push(property_command("ro.build.id"));
    r.push(property_command("ro.build.tags"));
    r.push(property_command("ro.build.type"));
    r
}

/// The build report from the outputs of `build_commands`, in the same order.
pub fn get_build_info(outputs: &Vec<Option<String>>) -> (r: BuildInfo)
    requires
        outputs@.len() == 10,
    ensures
        opt_text(r.fingerprint) == opt_text(outputs@[0]),
        opt_text(r.build_date) == opt_text(outputs@[1]),
        opt_text(r.build_user) == opt_text(outputs@[2]),
        opt_text(r.build_host) == opt_text(outputs@[3]),
        opt_text(r.security_patch) == opt_text(outputs@[4]),
        opt_text(r.bootloader) == opt_text(outputs@[5]),
        opt_text(r.baseband) == opt_text(outputs@[6]),
        opt_text(r.build_id) == opt_text(outputs@[7]),
        opt_text(r.build_tags) == opt_text(outputs@[8]),
        opt_text(r.build_type) == opt_text(outputs@[9]),
{
    BuildInfo {
        fingerprint: copy_text(&outputs[0]),
        build_date: copy_text(&outputs[1]),
        build_user: copy_text(&outputs[2]),
        build_host: copy_text(&outputs[3]),
        security_patch: copy_text(&outputs[4]),
        bootloader: copy_text(&outputs[5]),
        baseband: copy_text(&outputs[6]),
        build_id: copy_text(&outputs[7]),
        build_tags: copy_text(&outputs[8]),
        build_type: copy_text(&outputs[9]),
    }
}

} // verus!
