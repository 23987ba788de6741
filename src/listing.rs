//! Directory listings in the `ls -la` format.

use vstd::prelude::*;
use crate::number::{decimal, drop_plus, is_digit, lemma_decimal, parse_u64, parse_unsigned};
use crate::text::{
    chars_of, copy_range, find, find_exec, is_word, is_ws, join_from, join_space,
    lemma_find_first, lemma_find_from_bounds, lemma_find_none, lemma_join_concat, lemma_join_words,
    lemma_trim_idempotent, lemma_trim_padded, occurs_at, lines, same_chars, split_lines, split_tokens, starts_with,
    starts_with_exec, string_of, tokens, trim, trimmed, views,
};

verus! {

/// The kind of a listed entry.
pub enum FileType {
    File,
    Directory,
    Symlink { target: String },
}

/// One row of a directory listing.
pub struct FileInfo {
    pub name: String,
    pub dir: String,
    pub file_type: FileType,
    /// Absent for directories, and where the size column is not a number.
    pub size: Option<u64>,
    pub permissions: String,
}

pub enum FileKind {
    File,
    Directory,
    Symlink { target: Seq<char> },
}

pub struct FileEntry {
    pub name: Seq<char>,
    pub dir: Seq<char>,
    pub kind: FileKind,
    pub size: Option<int>,
    pub permissions: Seq<char>,
}

impl View for FileType {
    type V = FileKind;

    open spec fn view(&self) -> FileKind {
        match self {
            FileType::File => FileKind::File,
            FileType::Directory => FileKind::Directory,
            FileType::Symlink { target } => FileKind::Symlink { target: target@ },
        }
    }
}

pub open spec fn opt_int(o: Option<u64>) -> Option<int> {
    match o {
        Some(n) => Some(n as int),
        None => None,
    }
}

impl View for FileInfo {
    type V = FileEntry;

    open spec fn view(&self) -> FileEntry {
        FileEntry {
            name: self.name@,
            dir: self.dir@,
            kind: self.file_type@,
            size: opt_int(self.size),
            permissions: self.permissions@,
        }
    }
}

pub open spec fn entry_views(v: Seq<FileInfo>) -> Seq<FileEntry> {
    v.map_values(|f: FileInfo| f@)
}

/// Kind, name and size as the permission column's first character selects them,
/// before `.` and `..` are set aside.
pub open spec fn classify_row(perms: Seq<char>, name_part: Seq<char>, size_col: Seq<char>) -> Option<
    (FileKind, Seq<char>, Option<int>),
> {
    let size = parse_unsigned(size_col, u64::MAX as int);
    if perms.len() == 0 {
        None
    } else if perms[0] == 'd' {
        Some((FileKind::Directory, name_part, None))
    } else if perms[0] == '-' {
        Some((FileKind::File, name_part, size))
    } else if perms[0] == 'l' {
        match find(name_part, " -> "@) {
            Some(k) => Some(
                (
                    FileKind::Symlink {
                        target: name_part.subrange(k + " -> "@.len(), name_part.len() as int),
                    },
                    name_part.subrange(0, k),
                    size,
                ),
            ),
            None => Some((FileKind::Symlink { target: seq![] }, name_part, size)),
        }
    } else {
        None
    }
}

/// The entry that one raw line of a listing of `dir` gives, if any.
pub open spec fn listing_entry(raw: Seq<char>, dir: Seq<char>) -> Option<FileEntry> {
    let line = trim(raw);
    let parts = tokens(line);
    if line.len() == 0 || starts_with(line, "total "@) || parts.len() < 8 {
        None
    } else {
        match classify_row(parts[0], join_space(parts.subrange(7, parts.len() as int)), parts[4]) {
            Some((kind, name, size)) => if name == "."@ || name == ".."@ {
                None
            } else {
                Some(FileEntry { name, dir, kind, size, permissions: parts[0] })
            },
            None => None,
        }
    }
}

/// The entries that the lines `ls` of a listing of `dir` give, in order.
pub open spec fn listing_of_lines(ls: Seq<Seq<char>>, dir: Seq<char>) -> Seq<FileEntry>
    decreases ls.len(),
{
    if ls.len() == 0 {
        seq![]
    } else {
        let rest = listing_of_lines(ls.drop_last(), dir);
        match listing_entry(ls.last(), dir) {
            Some(e) => rest.push(e),
            None => rest,
        }
    }
}

/// The entries of the listing `text` of `dir`.
pub open spec fn listing(text: Seq<char>, dir: Seq<char>) -> Seq<FileEntry> {
    listing_of_lines(lines(text), dir)
}

/// The entry of one raw listing line.
pub fn parse_listing_line(raw: &Vec<char>, dir: &Vec<char>) -> (r: Option<FileInfo>)
    ensures
        r matches Some(f) ==> listing_entry(raw@, dir@) == Some(f@),
        r is None ==> listing_entry(raw@, dir@) is None,
{
    let line = trimmed(raw);
    if line.len() == 0 || starts_with_exec(&line, &chars_of("total ")) {
        return None;
    }
    let parts = split_tokens(&line);
    if parts.len() < 8 {
        return None;
    }
    let ghost ps = views(parts@);
    assert(ps[0] == parts@[0]@ && ps[4] == parts@[4]@);
    let perms = &parts[0];
    let name_part = join_from(&parts, 7);
    let size = parse_u64(&parts[4]);
    let arrow = chars_of(" -> ");
    let classified: Option<(FileType, Vec<char>, Option<u64>)> = if perms.len() == 0 {
        None
    } else if perms[0] == 'd' {
        Some((FileType::Directory, name_part, None))
    } else if perms[0] == '-' {
        Some((FileType::File, name_part, size))
    } else if perms[0] == 'l' {
        match find_exec(&name_part, &arrow, 0) {
            Some(k) => {
                proof {
                    lemma_find_from_bounds(name_part@, arrow@, 0);
                }
                let nlen = name_part.len();
                let link = copy_range(&name_part, 0, k);
                let target = copy_range(&name_part, k + arrow.len(), nlen);
                Some((FileType::Symlink { target: string_of(&target) }, link, size))
            },
            None => {
                let target = String::new();
                Some((FileType::Symlink { target }, name_part, size))
            },
        }
    } else {
        None
    };
    match classified {
        Some((file_type, name, size)) => {
            if same_chars(&name, &chars_of(".")) || same_chars(&name, &chars_of("..")) {
                None
            } else {
                Some(
                    FileInfo {
                        name: string_of(&name),
                        dir: string_of(dir),
                        file_type,
                        size,
                        permissions: string_of(perms),
                    },
                )
            }
        },
        None => None,
    }
}

/// The entries of the listing `text` of the directory `dir`: blank lines, the
/// `total` line, rows of fewer than eight columns, devices, pipes, sockets, `.`
/// and `..` are left out.
pub fn parse_listing(text: &str, dir: &str) -> (r: Vec<FileInfo>)
    ensures
        entry_views(r@) == listing(text@, dir@),
{
    let v = chars_of(text);
    let d = chars_of(dir);
    let ls = split_lines(&v);
    let mut out: Vec<FileInfo> = Vec::new();
    let mut k: usize = 0;
    assert(entry_views(out@) =~= seq![]);
    assert(views(ls@).subrange(0, 0) =~= seq![]);
    while k < ls.len()
        invariant
            k <= ls@.len(),
            views(ls@) == lines(text@),
            d@ == dir@,
            entry_views(out@) == listing_of_lines(views(ls@).subrange(0, k as int), dir@),
        decreases ls@.len() - k,
    {
        let ghost pre = views(ls@).subrange(0, k as int);
        let ghost next = views(ls@).subrange(0, k + 1);
        assert(next.drop_last() =~= pre);
        assert(next.last() == ls@[k as int]@);
        match parse_listing_line(&ls[k], &d) {
            Some(f) => {
                assert(entry_views(out@.push(f)) =~= entry_views(out@).push(f@));
                out.push(f);
            },
            None => {},
        }
        k += 1;
    }
    assert(views(ls@).subrange(0, ls@.len() as int) =~= views(ls@));
    out
}

/// A listing is parsed line by line: the entries of two blocks of lines are
/// those of the first block followed by those of the second.
pub proof fn lemma_listing_concat(a: Seq<Seq<char>>, b: Seq<Seq<char>>, dir: Seq<char>)
    ensures
        listing_of_lines(a + b, dir) == listing_of_lines(a, dir) + listing_of_lines(b, dir),
    decreases b.len(),
{
    if b.len() == 0 {
        assert(a + b =~= a);
        assert(listing_of_lines(a, dir) + listing_of_lines(b, dir) =~= listing_of_lines(a, dir));
    } else {
        assert((a + b).drop_last() =~= a + b.drop_last());
        assert((a + b).last() == b.last());
        lemma_listing_concat(a, b.drop_last(), dir);
        match listing_entry(b.last(), dir) {
            Some(e) => {
                assert(listing_of_lines(a, dir) + listing_of_lines(b.drop_last(), dir).push(e)
                    =~= (listing_of_lines(a, dir) + listing_of_lines(b.drop_last(), dir)).push(e));
            },
            None => {},
        }
    }
}

proof fn lemma_lines_have_no_dot_entries(ls: Seq<Seq<char>>, dir: Seq<char>)
    ensures
        forall|i: int|
            0 <= i < listing_of_lines(ls, dir).len() ==> #[trigger] listing_of_lines(ls, dir)[i].name
                != "."@ && listing_of_lines(ls, dir)[i].name != ".."@,
    decreases ls.len(),
{
    if ls.len() > 0 {
        lemma_lines_have_no_dot_entries(ls.drop_last(), dir);
    }
}

/// No entry of a listing is named `.` or `..`, whatever the text.
pub proof fn lemma_listing_has_no_dot_entries(text: Seq<char>, dir: Seq<char>)
    ensures
        forall|i: int|
            0 <= i < listing(text, dir).len() ==> #[trigger] listing(text, dir)[i].name != "."@
                && listing(text, dir)[i].name != ".."@,
{
    lemma_lines_have_no_dot_entries(lines(text), dir);
}

/// A row whose permissions start with `l` is a symlink: its name field is
/// split at the first `" -> "` into link name and target; without that
/// separator the whole field is the name and the target is empty.
pub proof fn lemma_symlink_row(perms: Seq<char>, name_part: Seq<char>, size_col: Seq<char>)
    requires
        perms.len() > 0,
        perms[0] == 'l',
    ensures
        match find(name_part, " -> "@) {
            Some(k) => classify_row(perms, name_part, size_col) == Some(
                (
                    FileKind::Symlink {
                        target: name_part.subrange(k + " -> "@.len(), name_part.len() as int),
                    },
                    name_part.subrange(0, k),
                    parse_unsigned(size_col, u64::MAX as int),
                ),
            ),
            None => classify_row(perms, name_part, size_col) == Some(
                (
                    FileKind::Symlink { target: seq![] },
                    name_part,
                    parse_unsigned(size_col, u64::MAX as int),
                ),
            ),
        },
{
}

/// Parsing is idempotent under line normalisation: a row that has already
/// been trimmed gives the same entry as before.
pub proof fn lemma_trimmed_row_parses_alike(raw: Seq<char>, dir: Seq<char>)
    ensures
        listing_entry(trim(raw), dir) == listing_entry(raw, dir),
{
    lemma_trim_idempotent(raw);
}

/// The lines of `ls` that have at least eight columns once trimmed.
pub open spec fn full_rows(ls: Seq<Seq<char>>) -> Seq<Seq<char>>
    decreases ls.len(),
{
    if ls.len() == 0 {
        seq![]
    } else if tokens(trim(ls.last())).len() < 8 {
        full_rows(ls.drop_last())
    } else {
        full_rows(ls.drop_last()).push(ls.last())
    }
}

/// Lines with fewer than eight columns add nothing to a listing, however
/// many there are and wherever they stand: the entries are those of the full
/// rows alone.
pub proof fn lemma_short_lines_ignored(ls: Seq<Seq<char>>, dir: Seq<char>)
    ensures
        listing_of_lines(ls, dir) == listing_of_lines(full_rows(ls), dir),
    decreases ls.len(),
{
    if ls.len() > 0 {
        lemma_short_lines_ignored(ls.drop_last(), dir);
        if tokens(trim(ls.last())).len() >= 8 {
            let f = full_rows(ls.drop_last()).push(ls.last());
            assert(f.drop_last() =~= full_rows(ls.drop_last()));
            assert(f.last() == ls.last());
        }
    }
}

/// Two listings of `dir` whose texts have the same full rows, in the same
/// order, have the same entries: truncated lines are skipped.
pub proof fn lemma_listings_agree_on_full_rows(t1: Seq<char>, t2: Seq<char>, dir: Seq<char>)
    requires
        full_rows(lines(t1)) == full_rows(lines(t2)),
    ensures
        listing(t1, dir) == listing(t2, dir),
{
    lemma_short_lines_ignored(lines(t1), dir);
    lemma_short_lines_ignored(lines(t2), dir);
}

/// The size column of a row: the size's digits, or `-` without a size.
pub open spec fn size_column(size: Option<int>) -> Seq<char> {
    match size {
        Some(n) => decimal(n as nat),
        None => "-"@,
    }
}

/// The columns of a row that shows `e`, whose name is the words `name`
/// joined by single spaces, and whose symlink target, if any, is the words
/// `target` so joined.
pub open spec fn row_columns(e: FileEntry, name: Seq<Seq<char>>, target: Seq<Seq<char>>) -> Seq<
    Seq<char>,
> {
    seq![e.permissions, "1"@, "u"@, "g"@, size_column(e.size), "2024-01-01"@, "00:00"@] + name + if target.len()
        > 0 {
        seq!["->"@] + target
    } else {
        seq![]
    }
}

/// The row that shows `e` in a listing.
pub open spec fn render_row(e: FileEntry, name: Seq<Seq<char>>, target: Seq<Seq<char>>) -> Seq<char> {
    join_space(row_columns(e, name, target))
}

/// Whether `e` is an entry that a listing row can show, with its name and
/// target given as words: permissions one word whose first character
/// matches the kind, a name of words without `>` that is not `.` or `..`, a
/// size only where the kind has one and within `u64`.
pub open spec fn renderable(e: FileEntry, name: Seq<Seq<char>>, target: Seq<Seq<char>>) -> bool {
    &&& is_word(e.permissions)
    &&& name.len() > 0
    &&& forall|i: int| 0 <= i < name.len() ==> is_word(#[trigger] name[i])
    &&& forall|i: int| 0 <= i < target.len() ==> is_word(#[trigger] target[i])
    &&& e.name == join_space(name)
    &&& forall|i: int| 0 <= i < e.name.len() ==> #[trigger] e.name[i] != '>'
    &&& e.name != "."@
    &&& e.name != ".."@
    &&& match e.size {
        Some(n) => 0 <= n <= u64::MAX,
        None => true,
    }
    &&& match e.kind {
        FileKind::File => e.permissions[0] == '-' && target.len() == 0,
        FileKind::Directory => e.permissions[0] == 'd' && target.len() == 0 && e.size is None,
        FileKind::Symlink { target: t } => e.permissions[0] == 'l' && t == join_space(target),
    }
}

proof fn lemma_size_column(size: Option<int>)
    requires
        match size {
            Some(n) => 0 <= n <= u64::MAX,
            None => true,
        },
    ensures
        is_word(size_column(size)),
        parse_unsigned(size_column(size), u64::MAX as int) == size,
{
    reveal_strlit("-");
    match size {
        Some(n) => {
            lemma_decimal(n as nat);
            let d = decimal(n as nat);
            assert(is_digit(d[0]));
            assert(drop_plus(d) == d);
            assert forall|i: int| 0 <= i < d.len() implies !is_ws(#[trigger] d[i]) by {
                assert(is_digit(d[i]));
            }
        },
        None => {
            assert(drop_plus("-"@) == "-"@);
            assert(!is_digit("-"@[0]));
        },
    }
}

/// A row rendered from an entry parses back to that entry: parsing is
/// idempotent on well-formed listings.
pub proof fn lemma_render_round_trip(e: FileEntry, name: Seq<Seq<char>>, target: Seq<Seq<char>>)
    requires
        renderable(e, name, target),
    ensures
        listing_entry(render_row(e, name, target), e.dir) == Some(e),
{
    reveal_strlit("1");
    reveal_strlit("u");
    reveal_strlit("g");
    reveal_strlit("2024-01-01");
    reveal_strlit("00:00");
    reveal_strlit("->");
    reveal_strlit(" -> ");
    reveal_strlit("total ");
    lemma_size_column(e.size);
    let cols = row_columns(e, name, target);
    let head = seq![e.permissions, "1"@, "u"@, "g"@, size_column(e.size), "2024-01-01"@, "00:00"@];
    let tail = if target.len() > 0 {
        seq!["->"@] + target
    } else {
        seq![]
    };
    assert(cols == head + name + tail);
    assert forall|i: int| 0 <= i < cols.len() implies is_word(#[trigger] cols[i]) by {
        if i < 7 {
            assert(cols[i] == head[i]);
        } else if i < 7 + name.len() {
            assert(cols[i] == name[i - 7]);
        } else if i == 7 + name.len() {
            assert(cols[i] == "->"@);
        } else {
            assert(cols[i] == target[i - 8 - name.len()]);
        }
    }
    lemma_join_words(cols);
    let line = render_row(e, name, target);
    assert(is_word(cols.last()));
    assert(Seq::<char>::empty() + line + Seq::<char>::empty() =~= line);
    lemma_trim_padded(Seq::<char>::empty(), line, Seq::<char>::empty());
    assert(trim(line) == line);
    assert(line[0] == e.permissions[0]);
    assert(!starts_with(line, "total "@)) by {
        if starts_with(line, "total "@) {
            assert(line.subrange(0, 6)[0] == line[0]);
        }
    }
    let parts = tokens(line);
    assert(parts == cols);
    assert(parts[0] == e.permissions && parts[4] == size_column(e.size));
    let rest = parts.subrange(7, parts.len() as int);
    assert(rest =~= name + tail);
    match e.kind {
        FileKind::Symlink { target: t } => {
            if target.len() > 0 {
                lemma_join_concat(name, tail);
                lemma_join_concat(seq!["->"@], target);
                assert(join_space(seq!["->"@]) == "->"@);
                let np = join_space(rest);
                let n = e.name.len() as int;
                assert(np =~= e.name + " -> "@ + t);
                assert(occurs_at(np, " -> "@, n)) by {
                    assert(np.subrange(n, n + 4) =~= " -> "@);
                }
                assert forall|j: int| 0 <= j < n implies !occurs_at(np, " -> "@, j) by {
                    if occurs_at(np, " -> "@, j) {
                        assert(np.subrange(j, j + 4)[2] == np[j + 2]);
                        if j + 2 < n {
                            assert(np[j + 2] == e.name[j + 2]);
                        }
                    }
                }
                lemma_find_first(np, " -> "@, n);
                assert(np.subrange(0, n) =~= e.name);
                assert(np.subrange(n + 4, np.len() as int) =~= t);
            } else {
                assert(rest =~= name);
                lemma_find_none(e.name, " -> "@, 2);
                assert(t =~= Seq::<char>::empty());
            }
        },
        _ => {
            assert(rest =~= name);
        },
    }
}

/// A listing whose lines are rendered rows gives back their entries, in order.
pub proof fn lemma_rendered_listing(
    es: Seq<FileEntry>,
    names: Seq<Seq<Seq<char>>>,
    targets: Seq<Seq<Seq<char>>>,
    dir: Seq<char>,
)
    requires
        names.len() == es.len(),
        targets.len() == es.len(),
        forall|i: int| 0 <= i < es.len() ==> #[trigger] es[i].dir == dir,
        forall|i: int| 0 <= i < es.len() ==> renderable(#[trigger] es[i], names[i], targets[i]),
    ensures
        listing_of_lines(
            Seq::new(es.len(), |i: int| render_row(es[i], names[i], targets[i])),
            dir,
        ) == es,
    decreases es.len(),
{
    let rows = Seq::new(es.len(), |i: int| render_row(es[i], names[i], targets[i]));
    if es.len() > 0 {
        let k = es.len() - 1;
        let es2 = es.drop_last();
        let names2 = names.drop_last();
        let targets2 = targets.drop_last();
        assert forall|i: int| 0 <= i < es2.len() implies #[trigger] es2[i].dir == dir by {
            assert(es2[i] == es[i]);
        }
        assert forall|i: int| 0 <= i < es2.len() implies renderable(
            #[trigger] es2[i],
            names2[i],
            targets2[i],
        ) by {
            assert(es2[i] == es[i]);
            assert(renderable(es[i], names[i], targets[i]));
        }
        lemma_rendered_listing(es2, names2, targets2, dir);
        let rows2 = Seq::new(es2.len(), |i: int| render_row(es2[i], names2[i], targets2[i]));
        assert(rows.drop_last() =~= rows2);
        assert(renderable(es[k], names[k], targets[k]));
        lemma_render_round_trip(es[k], names[k], targets[k]);
        assert(rows.last() == render_row(es[k], names[k], targets[k]));
        assert(es2.push(es[k]) =~= es);
    } else {
        assert(es =~= Seq::<FileEntry>::empty());
    }
}

} // verus!
