//! What holds of every commit payload that is written line by line.

use vstd::prelude::*;
use crate::bytes::{
    has_match, is_first_match, lemma_first_match_unique, matches_at, spec_split2,
};
use crate::commit::{
    commit_of, header_end, header_step, kw_author, kw_committer, kw_parent, kw_tree, line_feed,
    no_fields, scan_header, space, spec_lines, spec_parse_commit, trim_cr, CommitView,
    HeaderFields,
};
use crate::oid::{hex_value, is_hex, spec_parse_hex};

verus! {

/// A header line as it is written: not empty and without a line feed.
pub open spec fn plain_line(line: Seq<u8>) -> bool {
    line.len() > 0 && forall|i: int| 0 <= i < line.len() ==> line[i] != 10u8
}

/// Every line is a plain line.
pub open spec fn plain_lines(lines: Seq<Seq<u8>>) -> bool {
    forall|i: int| 0 <= i < lines.len() ==> plain_line(#[trigger] lines[i])
}

/// The lines with a line feed between each two of them.
pub open spec fn join_lines(lines: Seq<Seq<u8>>) -> Seq<u8>
    decreases lines.len(),
{
    if lines.len() == 0 {
        Seq::empty()
    } else if lines.len() == 1 {
        lines[0]
    } else {
        lines[0] + line_feed() + join_lines(lines.drop_first())
    }
}

/// The lines as they are read back: each but the last without the carriage
/// return that may end it.
pub open spec fn lines_read(lines: Seq<Seq<u8>>) -> Seq<Seq<u8>> {
    Seq::new(
        lines.len(),
        |i: int|
            if i + 1 < lines.len() {
                trim_cr(lines[i])
            } else {
                lines[i]
            },
    )
}

/// A keyword, a space and a value.
pub open spec fn header_line(key: Seq<u8>, value: Seq<u8>) -> Seq<u8> {
    key + space() + value
}

/// No byte is a line feed.
pub open spec fn no_line_feed(s: Seq<u8>) -> bool {
    forall|i: int| 0 <= i < s.len() ==> s[i] != 10u8
}

/// The last byte is a carriage return.
pub open spec fn ends_in_cr(s: Seq<u8>) -> bool {
    s.len() > 0 && s.last() == 13u8
}

/// Two line feeds stand at `k` and behind it.
pub open spec fn blank_at(s: Seq<u8>, k: int) -> bool {
    s[k] == 10u8 && s[k + 1] == 10u8
}

/// Plain lines joined begin and end with a byte that is no line feed and
/// hold no two line feeds in a row.
pub proof fn lemma_join_shape(lines: Seq<Seq<u8>>)
    requires
        plain_lines(lines),
        lines.len() > 0,
    ensures
        join_lines(lines).len() > 0,
        join_lines(lines)[0] != 10u8,
        join_lines(lines).last() != 10u8,
        forall|k: int|
            0 <= k && k + 1 < join_lines(lines).len() ==> !#[trigger] blank_at(
                join_lines(lines),
                k,
            ),
    decreases lines.len(),
{
    let first = lines[0];
    assert(plain_line(first));
    if lines.len() > 1 {
        let rest = lines.drop_first();
        assert forall|i: int| 0 <= i < rest.len() implies plain_line(#[trigger] rest[i]) by {
            assert(rest[i] == lines[i + 1]);
        }
        lemma_join_shape(rest);
        let tail = join_lines(rest);
        let j = join_lines(lines);
        assert(j == first + line_feed() + tail);
        let n = first.len() as int;
        assert forall|k: int| 0 <= k < j.len() implies j[k] == if k < n {
            first[k]
        } else if k == n {
            10u8
        } else {
            tail[k - n - 1]
        } by {}
        assert(j.last() == tail.last());
        assert forall|k: int| 0 <= k && k + 1 < j.len() implies !#[trigger] blank_at(j, k) by {
            if k > n {
                assert(!blank_at(tail, k - n - 1));
            }
        }
    }
}

/// In a line followed by a line feed, the line ends at that line feed.
pub proof fn lemma_lines_cons(line: Seq<u8>, rest: Seq<u8>)
    requires
        forall|i: int| 0 <= i < line.len() ==> line[i] != 10u8,
    ensures
        spec_lines(line + line_feed() + rest) == seq![trim_cr(line)] + spec_lines(rest),
{
    let s = line + line_feed() + rest;
    let n = line.len() as int;
    assert(s.subrange(n, n + 1) =~= line_feed());
    assert forall|k: int| 0 <= k < n implies !matches_at(s, line_feed(), k) by {
        if matches_at(s, line_feed(), k) {
            assert(s.subrange(k, k + 1)[0] == 10u8);
            assert(s[k] == line[k]);
        }
    }
    assert(is_first_match(s, line_feed(), n));
    lemma_first_match_unique(s, line_feed(), n);
    assert(s.subrange(0, n) =~= line);
    assert(s.subrange(n + 1, s.len() as int) =~= rest);
}

/// A text without a line feed is one line.
pub proof fn lemma_lines_single(line: Seq<u8>)
    requires
        plain_line(line),
    ensures
        spec_lines(line) == seq![line],
{
    assert forall|k: int| !matches_at(line, line_feed(), k) by {
        if matches_at(line, line_feed(), k) {
            assert(line.subrange(k, k + 1)[0] == 10u8);
        }
    }
}

/// Plain lines joined and split again are the same lines, each but the last
/// without the carriage return that may end it.
pub proof fn lemma_lines_of_join(lines: Seq<Seq<u8>>)
    requires
        plain_lines(lines),
    ensures
        spec_lines(join_lines(lines)) == lines_read(lines),
    decreases lines.len(),
{
    if lines.len() == 0 {
        assert(spec_lines(join_lines(lines)) =~= lines_read(lines));
    } else if lines.len() == 1 {
        assert(plain_line(lines[0]));
        lemma_lines_single(lines[0]);
        assert(seq![lines[0]] =~= lines_read(lines));
    } else {
        let rest = lines.drop_first();
        assert(plain_line(lines[0]));
        assert forall|i: int| 0 <= i < rest.len() implies plain_line(#[trigger] rest[i]) by {
            assert(rest[i] == lines[i + 1]);
        }
        lemma_lines_of_join(rest);
        lemma_lines_cons(lines[0], join_lines(rest));
        assert(seq![trim_cr(lines[0])] + lines_read(rest) =~= lines_read(lines));
    }
}

/// A payload made of plain header lines, a blank line and a message has
/// these lines as its header and this message as its body.
pub proof fn lemma_header_and_body(lines: Seq<Seq<u8>>, body: Seq<u8>)
    requires
        plain_lines(lines),
    ensures
        spec_split2(join_lines(lines) + header_end() + body, header_end()) == Some(
            (join_lines(lines), body),
        ),
{
    let header = join_lines(lines);
    let s = header + header_end() + body;
    let n = header.len() as int;
    assert(s.subrange(n, n + 2) =~= header_end());
    if lines.len() > 0 {
        lemma_join_shape(lines);
    }
    assert forall|k: int| 0 <= k < n implies !matches_at(s, header_end(), k) by {
        if matches_at(s, header_end(), k) {
            let m = s.subrange(k, k + 2);
            assert(m[0] == 10u8 && m[1] == 10u8);
            assert(s[k] == header[k]);
            if k + 1 < n {
                assert(s[k + 1] == header[k + 1]);
                assert(blank_at(header, k));
            } else {
                assert(header[k] == header.last());
            }
        }
    }
    assert(is_first_match(s, header_end(), n));
    lemma_first_match_unique(s, header_end(), n);
    assert(s.subrange(0, n) =~= header);
    assert(s.subrange(n + 2, s.len() as int) =~= body);
}

/// Parsing a payload made of plain header lines, a blank line and a message
/// reads exactly these lines, in order, and takes the message as it is.
pub proof fn lemma_parse_joined(lines: Seq<Seq<u8>>, body: Seq<u8>)
    requires
        plain_lines(lines),
    ensures
        spec_parse_commit(join_lines(lines) + header_end() + body) == commit_of(
            scan_header(lines_read(lines), no_fields()),
            body,
        ),
{
    lemma_header_and_body(lines, body);
    lemma_lines_of_join(lines);
}

/// A header line whose keyword holds no space splits into that keyword and
/// its value.
pub proof fn lemma_header_line_splits(key: Seq<u8>, value: Seq<u8>)
    requires
        no_space(key),
    ensures
        spec_split2(header_line(key, value), space()) == Some((key, value)),
{
    let s = header_line(key, value);
    let n = key.len() as int;
    assert(s.subrange(n, n + 1) =~= space());
    assert forall|k: int| 0 <= k < n implies !matches_at(s, space(), k) by {
        if matches_at(s, space(), k) {
            assert(s.subrange(k, k + 1)[0] == 32u8);
            assert(s[k] == key[k]);
        }
    }
    assert(is_first_match(s, space(), n));
    lemma_first_match_unique(s, space(), n);
    assert(s.subrange(0, n) =~= key);
    assert(s.subrange(n + 1, s.len() as int) =~= value);
}

/// A hash in hexadecimal holds no line feed and does not end in a carriage
/// return.
pub proof fn lemma_hex_has_no_line_break(h: Seq<u8>)
    requires
        is_hex(h),
    ensures
        no_line_feed(h),
        !ends_in_cr(h),
{
    assert forall|i: int| 0 <= i < h.len() implies h[i] != 10u8 by {
        assert(hex_value(h[i]) is Some);
    }
    if h.len() > 0 {
        assert(hex_value(h[h.len() - 1]) is Some);
    }
}

/// A keyword and a value without line feeds make a plain line.
pub proof fn lemma_line_is_plain(key: Seq<u8>, value: Seq<u8>)
    requires
        no_line_feed(key),
        no_line_feed(value),
    ensures
        plain_line(header_line(key, value)),
{
    let s = header_line(key, value);
    let n = key.len() as int;
    assert forall|i: int| 0 <= i < s.len() implies s[i] != 10u8 by {
        if i < n {
            assert(s[i] == key[i]);
        } else if i == n {
            assert(s[i] == 32u8);
        } else {
            assert(s[i] == value[i - n - 1]);
        }
    }
}

/// A header line whose value does not end in a carriage return is read back
/// whole.
pub proof fn lemma_line_is_read_whole(key: Seq<u8>, value: Seq<u8>)
    requires
        !ends_in_cr(value),
    ensures
        trim_cr(header_line(key, value)) == header_line(key, value),
{
    let s = header_line(key, value);
    if value.len() > 0 {
        assert(s.last() == value.last());
    } else {
        assert(s.last() == 32u8);
    }
}

/// No byte is a space.
pub open spec fn no_space(s: Seq<u8>) -> bool {
    forall|i: int| 0 <= i < s.len() ==> s[i] != 32u8
}

/// The four keywords differ from each other and hold neither a space nor a
/// line feed.
pub proof fn lemma_keywords()
    ensures
        kw_tree() != kw_parent(),
        kw_tree() != kw_author(),
        kw_tree() != kw_committer(),
        kw_parent() != kw_author(),
        kw_parent() != kw_committer(),
        kw_author() != kw_committer(),
        no_space(kw_tree()) && no_line_feed(kw_tree()),
        no_space(kw_parent()) && no_line_feed(kw_parent()),
        no_space(kw_author()) && no_line_feed(kw_author()),
        no_space(kw_committer()) && no_line_feed(kw_committer()),
{
    assert(kw_tree().len() == 4 && kw_parent().len() == 6 && kw_author().len() == 6
        && kw_committer().len() == 9);
    assert(kw_parent()[0] != kw_author()[0]);
}

/// Reading a plain header line is one step over its keyword and value.
pub proof fn lemma_scan_step(
    lines: Seq<Seq<u8>>,
    f: HeaderFields,
    key: Seq<u8>,
    value: Seq<u8>,
)
    requires
        lines.len() > 0,
        lines[0] == header_line(key, value),
        no_space(key),
    ensures
        scan_header(lines, f) == match header_step(f, key, value) {
            None => None,
            Some(g) => scan_header(lines.drop_first(), g),
        },
{
    lemma_header_line_splits(key, value);
    assert(lines[0].len() > 0);
}

/// The five header lines of a commit with one tree, two parents, an author
/// and a committer.
pub open spec fn two_parent_lines(
    tree: Seq<u8>,
    first: Seq<u8>,
    second: Seq<u8>,
    author: Seq<u8>,
    committer: Seq<u8>,
) -> Seq<Seq<u8>> {
    seq![
        header_line(kw_tree(), tree),
        header_line(kw_parent(), first),
        header_line(kw_parent(), second),
        header_line(kw_author(), author),
        header_line(kw_committer(), committer),
    ]
}

/// The payload of such a commit: the five header lines, a blank line and the
/// message.
pub open spec fn two_parent_payload(
    tree: Seq<u8>,
    first: Seq<u8>,
    second: Seq<u8>,
    author: Seq<u8>,
    committer: Seq<u8>,
    body: Seq<u8>,
) -> Seq<u8> {
    join_lines(two_parent_lines(tree, first, second, author, committer)) + header_end() + body
}

/// The fields that the five header lines give.
pub open spec fn two_parent_fields(
    tree: Seq<u8>,
    first: Seq<u8>,
    second: Seq<u8>,
    author: Seq<u8>,
    committer: Seq<u8>,
) -> HeaderFields {
    HeaderFields {
        tree: Some(spec_parse_hex(tree).unwrap()),
        parents: seq![spec_parse_hex(first).unwrap(), spec_parse_hex(second).unwrap()],
        author: Some(author),
        committer: Some(committer),
    }
}

/// The five header lines are plain and are read back as they were written.
pub proof fn lemma_two_parent_lines_read(
    tree: Seq<u8>,
    first: Seq<u8>,
    second: Seq<u8>,
    author: Seq<u8>,
    committer: Seq<u8>,
)
    requires
        spec_parse_hex(tree) is Ok,
        spec_parse_hex(first) is Ok,
        spec_parse_hex(second) is Ok,
        no_line_feed(author),
        !ends_in_cr(author),
        no_line_feed(committer),
    ensures
        plain_lines(two_parent_lines(tree, first, second, author, committer)),
        lines_read(two_parent_lines(tree, first, second, author, committer)) == two_parent_lines(
            tree,
            first,
            second,
            author,
            committer,
        ),
{
    let lines = two_parent_lines(tree, first, second, author, committer);
    lemma_keywords();
    lemma_hex_has_no_line_break(tree);
    lemma_hex_has_no_line_break(first);
    lemma_hex_has_no_line_break(second);
    lemma_line_is_plain(kw_tree(), tree);
    lemma_line_is_plain(kw_parent(), first);
    lemma_line_is_plain(kw_parent(), second);
    lemma_line_is_plain(kw_author(), author);
    lemma_line_is_plain(kw_committer(), committer);
    lemma_line_is_read_whole(kw_tree(), tree);
    lemma_line_is_read_whole(kw_parent(), first);
    lemma_line_is_read_whole(kw_parent(), second);
    lemma_line_is_read_whole(kw_author(), author);
    assert(lines_read(lines) =~= lines);
}

/// Reading the five header lines gives the tree, the two parents in the
/// order of their lines, the author and the committer.
pub proof fn lemma_two_parent_scan(
    tree: Seq<u8>,
    first: Seq<u8>,
    second: Seq<u8>,
    author: Seq<u8>,
    committer: Seq<u8>,
)
    requires
        spec_parse_hex(tree) is Ok,
        spec_parse_hex(first) is Ok,
        spec_parse_hex(second) is Ok,
    ensures
        scan_header(two_parent_lines(tree, first, second, author, committer), no_fields())
            == Some(two_parent_fields(tree, first, second, author, committer)),
{
    let lines = two_parent_lines(tree, first, second, author, committer);
    lemma_keywords();
    let f0 = no_fields();
    let f1 = HeaderFields { tree: Some(spec_parse_hex(tree).unwrap()), ..f0 };
    let f2 = HeaderFields { parents: f1.parents.push(spec_parse_hex(first).unwrap()), ..f1 };
    let f3 = HeaderFields { parents: f2.parents.push(spec_parse_hex(second).unwrap()), ..f2 };
    let f4 = HeaderFields { author: Some(author), ..f3 };
    let f5 = HeaderFields { committer: Some(committer), ..f4 };
    let r1 = lines.drop_first();
    let r2 = r1.drop_first();
    let r3 = r2.drop_first();
    let r4 = r3.drop_first();
    let r5 = r4.drop_first();
    lemma_scan_step(lines, f0, kw_tree(), tree);
    lemma_scan_step(r1, f1, kw_parent(), first);
    lemma_scan_step(r2, f2, kw_parent(), second);
    lemma_scan_step(r3, f3, kw_author(), author);
    lemma_scan_step(r4, f4, kw_committer(), committer);
    assert(r5.len() == 0);
    assert(f5.parents =~= seq![spec_parse_hex(first).unwrap(), spec_parse_hex(second).unwrap()]);
}

/// A well-formed payload with a tree, two parents, an author and a committer
/// parses to exactly these: the tree, the two parents in the order of their
/// lines, the author and committer lines as written, and the message. Author
/// and committer must fit on their lines: neither holds a line feed, and the
/// author does not end in a carriage return, which would count as part of
/// the line's terminator.
pub proof fn lemma_two_parent_commit_parses(
    tree: Seq<u8>,
    first: Seq<u8>,
    second: Seq<u8>,
    author: Seq<u8>,
    committer: Seq<u8>,
    body: Seq<u8>,
)
    requires
        spec_parse_hex(tree) is Ok,
        spec_parse_hex(first) is Ok,
        spec_parse_hex(second) is Ok,
        no_line_feed(author),
        !ends_in_cr(author),
        no_line_feed(committer),
    ensures
        spec_parse_commit(two_parent_payload(tree, first, second, author, committer, body))
            == Some(
            CommitView {
                tree: spec_parse_hex(tree).unwrap(),
                parents: seq![spec_parse_hex(first).unwrap(), spec_parse_hex(second).unwrap()],
                author,
                committer,
                body,
            },
        ),
{
    let lines = two_parent_lines(tree, first, second, author, committer);
    lemma_two_parent_lines_read(tree, first, second, author, committer);
    lemma_two_parent_scan(tree, first, second, author, committer);
    lemma_parse_joined(lines, body);
}

/// The keyword of a header line: what stands before its first space.
pub open spec fn keyword_of(line: Seq<u8>) -> Option<Seq<u8>> {
    match spec_split2(line, space()) {
        Some((key, _)) => Some(key),
        None => None,
    }
}

/// Some line among these has the keyword `tree`.
pub open spec fn names_tree(lines: Seq<Seq<u8>>) -> bool {
    exists|i: int| 0 <= i < lines.len() && #[trigger] keyword_of(lines[i]) == Some(kw_tree())
}

/// Lines of which none has the keyword `tree` leave the tree as it was.
pub proof fn lemma_scan_keeps_tree(lines: Seq<Seq<u8>>, f: HeaderFields)
    requires
        !names_tree(lines),
    ensures
        scan_header(lines, f) matches Some(g) ==> g.tree == f.tree,
    decreases lines.len(),
{
    if lines.len() != 0 && lines[0].len() != 0 {
        match spec_split2(lines[0], space()) {
            None => {},
            Some((key, value)) => {
                assert(keyword_of(lines[0]) == Some(key));
                assert(key != kw_tree());
                match header_step(f, key, value) {
                    None => {},
                    Some(g) => {
                        let rest = lines.drop_first();
                        assert forall|i: int| 0 <= i < rest.len() implies #[trigger] keyword_of(
                            rest[i],
                        ) != Some(kw_tree()) by {
                            assert(rest[i] == lines[i + 1]);
                            assert(keyword_of(lines[i + 1]) != Some(kw_tree()));
                        }
                        lemma_scan_keeps_tree(rest, g);
                    },
                }
            },
        }
    }
}

/// A payload whose header has no `tree` line does not parse, whatever else
/// the header holds.
pub proof fn lemma_missing_tree_fails(payload: Seq<u8>)
    requires
        spec_split2(payload, header_end()) matches Some((header, _)) ==> !names_tree(
            spec_lines(header),
        ),
    ensures
        spec_parse_commit(payload) is None,
{
    match spec_split2(payload, header_end()) {
        None => {},
        Some((header, _)) => {
            lemma_scan_keeps_tree(spec_lines(header), no_fields());
        },
    }
}

} // verus!
