//! The table of mounted file systems.

use vstd::prelude::*;
use vstd::string::*;

use crate::path::{law_normalize_idempotent, normalize_path, normalized};
use crate::text::{
    from_chars, is_white_space, law_split, law_words, law_words_gap, same_as, split,
    split_at_char, split_words, texts, to_chars, words,
};

verus! {

/// Whether a line of the table is about a gocryptfs file system mounted at
/// `mountpoint`. A line is made of words: what is mounted, where, the type of
/// the file system, and more. Where it is mounted is compared in normal form.
pub open spec fn is_mount_of(line: Seq<char>, mountpoint: Seq<char>) -> bool {
    let fields = words(line);
    &&& fields.len() >= 3
    &&& normalized(fields[1]) == normalized(mountpoint)
    &&& fields[2] == "fuse.gocryptfs"@ || fields[2] == "gocryptfs"@
}

/// Whether a line of the table `contents` is about a gocryptfs file system
/// mounted at `mountpoint`.
pub open spec fn lists_mount(contents: Seq<char>, mountpoint: Seq<char>) -> bool {
    exists|i: int|
        0 <= i < split(contents, '\n').len() && is_mount_of(
            #[trigger] split(contents, '\n')[i],
            mountpoint,
        )
}

/// Whether gocryptfs is mounted at `mountpoint`, as the table `contents` of
/// mounted file systems has it. Without a table nothing is mounted.
pub open spec fn is_mounted(contents: Option<Seq<char>>, mountpoint: Seq<char>) -> bool {
    match contents {
        Some(table) => lists_mount(table, mountpoint),
        None => false,
    }
}

/// Whether gocryptfs is mounted at `mountpoint`, as the table of mounted file
/// systems has it, or not where there is no table.
pub fn mounts_contains(contents: Option<&str>, mountpoint: &str) -> (r: bool)
    ensures
        r == is_mounted(crate::text::opt_str(contents), mountpoint@),
{
    let table: &str = match contents {
        Some(table) => table,
        None => {
            return false;
        },
    };
    let needle = normalize_path(mountpoint);
    let chars = to_chars(table);
    let lines = split_at_char(&chars, '\n');
    let ghost all = split(table@, '\n');
    for i in 0..lines.len()
        invariant
            all == split(table@, '\n'),
            texts(lines@) == all,
            needle@ == normalized(mountpoint@),
            crate::text::opt_str(contents) == Some(table@),
            forall|j: int| 0 <= j < i ==> !is_mount_of(#[trigger] all[j], mountpoint@),
    {
        assert(lines@[i as int]@ == all[i as int]);
        let fields = split_words(&lines[i]);
        let ghost found = words(all[i as int]);
        assert(texts(fields@) == found);
        if fields.len() >= 3 {
            assert(fields@[1]@ == found[1]);
            assert(fields@[2]@ == found[2]);
            let target = from_chars(&fields[1]);
            let place = normalize_path(target.as_str());
            if place == needle && (same_as(&fields[2], "fuse.gocryptfs") || same_as(
                &fields[2],
                "gocryptfs",
            )) {
                assert(is_mount_of(all[i as int], mountpoint@));
                return true;
            }
        }
    }
    false
}

/// How a mount point is spelled makes no difference: every spelling is found
/// or missed with its normal form.
pub proof fn law_mount_spelling(contents: Option<Seq<char>>, a: Seq<char>, b: Seq<char>)
    requires
        normalized(a) == normalized(b),
    ensures
        is_mounted(contents, a) == is_mounted(contents, b),
        is_mounted(contents, normalized(a)) == is_mounted(contents, a),
{
    law_normalize_idempotent(a);
    if let Some(table) = contents {
        let lines = split(table, '\n');
        assert forall|i: int| 0 <= i < lines.len() implies {
            &&& is_mount_of(#[trigger] lines[i], a) == is_mount_of(lines[i], b)
            &&& is_mount_of(lines[i], normalized(a)) == is_mount_of(lines[i], a)
        } by {}
    }
}

/// Where a line stands in the table makes no difference: what the table lists is
/// what its lines list. Without a table nothing is mounted.
pub proof fn law_table_is_its_lines(a: Seq<char>, b: Seq<char>, mountpoint: Seq<char>)
    ensures
        is_mounted(Some(a + "\n"@ + b), mountpoint) <==> is_mounted(Some(a), mountpoint)
            || is_mounted(Some(b), mountpoint),
        !is_mounted(None, mountpoint),
{
    reveal_strlit("\n");
    let whole = a + "\n"@ + b;
    let (first, second) = (split(a, '\n'), split(b, '\n'));
    law_split(a, '\n', b);
    assert(whole =~= a + seq!['\n'] + b);
    let lines = split(whole, '\n');
    assert(lines == first + second);
    if lists_mount(whole, mountpoint) {
        let i = choose|i: int|
            0 <= i < lines.len() && is_mount_of(#[trigger] lines[i], mountpoint);
        if i < first.len() {
            assert(is_mount_of(first[i], mountpoint));
        } else {
            assert(is_mount_of(second[i - first.len()], mountpoint));
        }
    }
    if lists_mount(a, mountpoint) {
        let i = choose|i: int|
            0 <= i < first.len() && is_mount_of(#[trigger] first[i], mountpoint);
        assert(lines[i] == first[i]);
    }
    if lists_mount(b, mountpoint) {
        let i = choose|i: int|
            0 <= i < second.len() && is_mount_of(#[trigger] second[i], mountpoint);
        assert(lines[first.len() + i] == second[i]);
    }
}

/// A gap between the fields of a line: white space without a line break.
pub open spec fn is_gap(s: Seq<char>) -> bool {
    forall|i: int| 0 <= i < s.len() ==> is_white_space(#[trigger] s[i]) && s[i] != '\n'
}

/// A field of a line: some characters, none of them white space.
pub open spec fn is_field(s: Seq<char>) -> bool {
    s.len() > 0 && forall|i: int| 0 <= i < s.len() ==> !is_white_space(#[trigger] s[i])
}

/// What a gap and a field are.
pub proof fn law_gap_and_field(s: Seq<char>)
    ensures
        s == " "@ || s == "\t"@ || s == "  "@ ==> is_gap(s) && !is_field(s),
        s.contains('\n') || s.contains(' ') ==> !is_field(s),
        s.len() > 0 && (forall|i: int| 0 <= i < s.len() ==> '!' <= #[trigger] s[i] <= '~')
            ==> is_field(s) && !is_gap(s),
{
    reveal_strlit(" ");
    reveal_strlit("\t");
    reveal_strlit("  ");
    if s.contains('\n') {
        let i = choose|i: int| 0 <= i < s.len() && s[i] == '\n';
        assert(is_white_space(s[i]));
    }
    if s.contains(' ') {
        let i = choose|i: int| 0 <= i < s.len() && s[i] == ' ';
        assert(is_white_space(s[i]));
    }
    if s == " "@ || s == "\t"@ || s == "  "@ {
        assert(is_white_space(s[0]));
    }
    if s.len() > 0 && (forall|i: int| 0 <= i < s.len() ==> '!' <= #[trigger] s[i] <= '~') {
        assert('!' <= s[0] <= '~');
        assert(!is_white_space(s[0]));
    }
}

/// A line says that gocryptfs is mounted at a place if and only if its second
/// field is a spelling of that place and its third field is `fuse.gocryptfs` or
/// `gocryptfs`. What is mounted, and what follows the third field, makes no
/// difference.
pub proof fn law_mount_line(
    lead: Seq<char>,
    source: Seq<char>,
    gap: Seq<char>,
    place: Seq<char>,
    space: Seq<char>,
    kind: Seq<char>,
    more: Seq<char>,
    mountpoint: Seq<char>,
)
    requires
        is_gap(lead),
        is_field(source),
        is_gap(gap) && gap.len() > 0,
        is_field(place),
        is_gap(space) && space.len() > 0,
        is_field(kind),
        more.len() > 0 ==> is_white_space(more[0]),
        !more.contains('\n'),
    ensures
        is_mounted(Some(lead + source + gap + place + space + kind + more), mountpoint) <==> (
        normalized(place) == normalized(mountpoint) && (kind == "fuse.gocryptfs"@ || kind
            == "gocryptfs"@)),
{
    let line = lead + source + gap + place + space + kind + more;
    let tail = kind + more;
    let rest = place + space + tail;
    let body = source + gap + rest;
    assert(line =~= lead + body);
    law_words(source, ' ', rest);
    law_words(place, ' ', tail);
    law_words(kind, ' ', rest);
    law_words_gap(source, gap, rest);
    law_words_gap(place, space, tail);
    if lead.len() > 0 {
        law_words_gap(source, lead, body);
    } else {
        assert(lead + body =~= body);
    }
    let fields = words(line);
    assert(fields == words(source) + (words(place) + words(tail)));
    if more.len() > 0 {
        let after = more.drop_first();
        law_words(kind, more[0], after);
        assert(tail =~= kind + seq![more[0]] + after);
        assert(words(tail) == seq![kind] + words(after));
    } else {
        assert(tail =~= kind);
    }
    assert(words(tail).len() >= 1 && words(tail)[0] == kind);
    assert(fields.len() >= 3 && fields[1] == place && fields[2] == kind);
    assert forall|i: int| 0 <= i < line.len() implies line[i] != '\n' by {
        let (n0, n1) = (lead.len(), lead.len() + source.len());
        let (n2, n3) = (n1 + gap.len(), n1 + gap.len() + place.len());
        let (n4, n5) = (n3 + space.len(), n3 + space.len() + kind.len());
        assert(is_white_space('\n'));
        if i < n0 {
            assert(line[i] == lead[i]);
        } else if i < n1 {
            assert(line[i] == source[i - n0]);
        } else if i < n2 {
            assert(line[i] == gap[i - n1]);
        } else if i < n3 {
            assert(line[i] == place[i - n2]);
        } else if i < n4 {
            assert(line[i] == space[i - n3]);
        } else if i < n5 {
            assert(line[i] == kind[i - n4]);
        } else {
            assert(line[i] == more[i - n5]);
        }
    }
    law_split(line, '\n', line);
    assert(split(line, '\n')[0] == line);
}

/// A line of fewer than three fields says nothing.
pub proof fn law_short_line(
    lead: Seq<char>,
    source: Seq<char>,
    gap: Seq<char>,
    place: Seq<char>,
    end: Seq<char>,
    mountpoint: Seq<char>,
)
    requires
        is_gap(lead) && is_gap(gap) && is_gap(end),
        source.len() == 0 || is_field(source),
        place.len() == 0 || is_field(place),
    ensures
        !is_mounted(Some(lead + source + gap + place + end), mountpoint),
{
    let line = lead + source + gap + place + end;
    let tail = place + end;
    let body = source + gap + tail;
    assert(line =~= lead + body);
    law_words(source, ' ', tail);
    law_words(place, ' ', tail);
    assert(words(source).len() <= 1) by {
        if source.len() == 0 {
            assert(source =~= Seq::empty());
        }
    }
    assert(words(place).len() <= 1) by {
        if place.len() == 0 {
            assert(place =~= Seq::empty());
        }
    }
    if end.len() > 0 {
        law_words_gap(place, end, Seq::empty());
    } else {
        assert(tail =~= place);
    }
    if gap.len() > 0 {
        law_words_gap(source, gap, tail);
    } else {
        lemma_touching(source, place, end);
        assert(body =~= source + place + end);
    }
    if lead.len() > 0 {
        law_words_gap(source, lead, body);
    } else {
        assert(lead + body =~= body);
    }
    assert(words(line).len() < 3);
    assert forall|i: int| 0 <= i < line.len() implies line[i] != '\n' by {
        let (n0, n1) = (lead.len(), lead.len() + source.len());
        let (n2, n3) = (n1 + gap.len(), n1 + gap.len() + place.len());
        assert(is_white_space('\n'));
        if i < n0 {
            assert(line[i] == lead[i]);
        } else if i < n1 {
            assert(line[i] == source[i - n0]);
        } else if i < n2 {
            assert(line[i] == gap[i - n1]);
        } else if i < n3 {
            assert(line[i] == place[i - n2]);
        } else {
            assert(line[i] == end[i - n3]);
        }
    }
    law_split(line, '\n', line);
    assert(split(line, '\n') =~= seq![line]);
}

/// Two fields without a gap between them are one.
proof fn lemma_touching(a: Seq<char>, b: Seq<char>, end: Seq<char>)
    requires
        a.len() == 0 || is_field(a),
        b.len() == 0 || is_field(b),
        is_gap(end),
    ensures
        words(a + b + end).len() <= 1,
{
    let field = a + b;
    law_words(field, ' ', end);
    if field.len() == 0 {
        assert(field =~= Seq::empty());
    } else {
        assert forall|i: int| 0 <= i < field.len() implies !is_white_space(#[trigger] field[i]) by {
            if i < a.len() {
                assert(field[i] == a[i]);
            } else {
                assert(field[i] == b[i - a.len()]);
            }
        }
    }
    if end.len() > 0 {
        law_words_gap(field, end, Seq::empty());
    } else {
        assert(field + end =~= field);
    }
}

} // verus!
