//! vmoptions files: line filtering and the notification-port directive.
//!
//! A vmoptions file is split into lines exactly as `str::lines` splits
//! text; lines that are blank after trimming, or whose trimmed form starts
//! with `#`, are dropped, and the rest are kept verbatim in file order.
//! The first kept line carrying the notification-port directive names the
//! file that holds the advertised port.

use vstd::prelude::*;
use vstd::string::*;
use crate::chars::{
    is_ws, trim, trim_start, is_whitespace_char, has_prefix, str_has_prefix,
    lemma_trim_start_at, lemma_trim_end_keeps_head,
};

verus! {

/// `l` without one trailing carriage return, as `str::lines` strips it
/// before a line feed.
pub open spec fn strip_cr(l: Seq<char>) -> Seq<char> {
    if l.len() > 0 && l.last() == '\r' {
        l.drop_last()
    } else {
        l
    }
}

/// The lines of `rest` as `str::lines` yields them, with `cur` the part of
/// the current line already read.
pub open spec fn lines_from(rest: Seq<char>, cur: Seq<char>) -> Seq<Seq<char>>
    decreases rest.len(),
{
    if rest.len() == 0 {
        if cur.len() == 0 {
            Seq::<Seq<char>>::empty()
        } else {
            seq![cur]
        }
    } else if rest[0] == '\n' {
        seq![strip_cr(cur)] + lines_from(rest.drop_first(), Seq::<char>::empty())
    } else {
        lines_from(rest.drop_first(), cur.push(rest[0]))
    }
}

/// The lines of `s`, as `str::lines` yields them.
pub open spec fn lines_of(s: Seq<char>) -> Seq<Seq<char>> {
    lines_from(s, Seq::<char>::empty())
}

/// A line that the vmoptions filter keeps: non-blank after trimming, and
/// its trimmed form is no `#` comment.
pub open spec fn keep_line(l: Seq<char>) -> bool {
    trim(l).len() > 0 && trim(l)[0] != '#'
}

/// The kept lines of a line sequence, in order.
pub open spec fn filt(x: Seq<Seq<char>>) -> Seq<Seq<char>>
    decreases x.len(),
{
    if x.len() == 0 {
        Seq::<Seq<char>>::empty()
    } else if keep_line(x.last()) {
        filt(x.drop_last()).push(x.last())
    } else {
        filt(x.drop_last())
    }
}

/// The kept lines of `rest` (with `cur` the partial current line): the
/// lines, filtered, in one pass.
pub open spec fn kept_from(rest: Seq<char>, cur: Seq<char>) -> Seq<Seq<char>>
    decreases rest.len(),
{
    if rest.len() == 0 {
        if keep_line(cur) {
            seq![cur]
        } else {
            Seq::<Seq<char>>::empty()
        }
    } else if rest[0] == '\n' {
        (if keep_line(strip_cr(cur)) {
            seq![strip_cr(cur)]
        } else {
            Seq::<Seq<char>>::empty()
        }) + kept_from(rest.drop_first(), Seq::<char>::empty())
    } else {
        kept_from(rest.drop_first(), cur.push(rest[0]))
    }
}

/// The vmoptions kept from the file content `s`.
pub open spec fn kept_lines(s: Seq<char>) -> Seq<Seq<char>> {
    kept_from(s, Seq::<char>::empty())
}

/// Filtering distributes over concatenation of line sequences.
proof fn lemma_filt_add(a: Seq<Seq<char>>, b: Seq<Seq<char>>)
    ensures
        filt(a + b) == filt(a) + filt(b),
    decreases b.len(),
{
    if b.len() == 0 {
        assert(a + b =~= a);
        assert(filt(a) + filt(b) =~= filt(a));
    } else {
        assert((a + b).drop_last() =~= a + b.drop_last());
        assert((a + b).last() == b.last());
        lemma_filt_add(a, b.drop_last());
        if keep_line(b.last()) {
            assert(filt(a + b) =~= filt(a) + filt(b.drop_last()).push(b.last()));
            assert(filt(b) =~= filt(b.drop_last()).push(b.last()));
        }
    }
}

/// The filter of a one-line sequence.
proof fn lemma_filt_singleton(l: Seq<char>)
    ensures
        filt(seq![l]) == if keep_line(l) {
            seq![l]
        } else {
            Seq::<Seq<char>>::empty()
        },
{
    reveal_with_fuel(filt, 2);
    assert(seq![l].drop_last() =~= Seq::<Seq<char>>::empty());
    assert(seq![l].last() == l);
    if keep_line(l) {
        assert(filt(seq![l]) =~= seq![l]);
    } else {
        assert(filt(seq![l]) =~= Seq::<Seq<char>>::empty());
    }
}

/// Every line that the filter keeps satisfies the keep predicate.
proof fn lemma_filt_kept(x: Seq<Seq<char>>)
    ensures
        forall|i: int| 0 <= i < filt(x).len() ==> keep_line(#[trigger] filt(x)[i]),
    decreases x.len(),
{
    if x.len() > 0 {
        lemma_filt_kept(x.drop_last());
        assert forall|i: int| 0 <= i < filt(x).len() implies keep_line(
            #[trigger] filt(x)[i],
        ) by {
            if keep_line(x.last()) {
                assert(filt(x) == filt(x.drop_last()).push(x.last()));
                if i < filt(x.drop_last()).len() {
                    assert(filt(x)[i] == filt(x.drop_last())[i]);
                } else {
                    assert(filt(x)[i] == x.last());
                }
            } else {
                assert(filt(x) == filt(x.drop_last()));
            }
        }
    }
}

/// The one-pass kept lines are the lines, filtered.
proof fn lemma_kept_from_is_filtered(rest: Seq<char>, cur: Seq<char>)
    ensures
        kept_from(rest, cur) == filt(lines_from(rest, cur)),
    decreases rest.len(),
{
    if rest.len() == 0 {
        if cur.len() == 0 {
            assert(trim(cur) =~= Seq::<char>::empty());
            assert(!keep_line(cur));
        } else {
            lemma_filt_singleton(cur);
        }
    } else if rest[0] == '\n' {
        lemma_kept_from_is_filtered(rest.drop_first(), Seq::<char>::empty());
        lemma_filt_add(seq![strip_cr(cur)], lines_from(rest.drop_first(), Seq::<char>::empty()));
        lemma_filt_singleton(strip_cr(cur));
    } else {
        lemma_kept_from_is_filtered(rest.drop_first(), cur.push(rest[0]));
    }
}

/// The vmoptions kept from a file are exactly its lines, in file order,
/// with the blank and comment lines removed; every kept line is non-blank
/// after trimming and its trimmed form does not start with `#`.
pub proof fn lemma_vmoptions_filter(content: Seq<char>)
    ensures
        kept_lines(content) == filt(lines_of(content)),
        forall|i: int| 0 <= i < kept_lines(content).len() ==> keep_line(
            #[trigger] kept_lines(content)[i],
        ),
{
    lemma_kept_from_is_filtered(content, Seq::<char>::empty());
    lemma_filt_kept(lines_of(content));
}

/// Whether the vmoptions filter keeps the line `l`.
pub fn line_kept(l: &str) -> (r: bool)
    ensures
        r == keep_line(l@),
{
    let n = l.unicode_len();
    let mut j: usize = 0;
    while j < n && is_whitespace_char(l.get_char(j))
        invariant
            0 <= j <= n,
            n == l@.len(),
            forall|k: int| 0 <= k < j ==> is_ws(l@[k]),
        decreases n - j,
    {
        j = j + 1;
    }
    if j == n {
        proof {
            lemma_trim_start_at(l@, n as int);
            assert(trim_start(l@) =~= Seq::<char>::empty());
            assert(trim(l@) =~= Seq::<char>::empty());
        }
        return false;
    }
    let c = l.get_char(j);
    proof {
        lemma_trim_start_at(l@, j as int);
        lemma_trim_end_keeps_head(l@.subrange(j as int, n as int));
        assert(trim(l@).len() > 0);
        assert(trim(l@)[0] == l@[j as int]);
    }
    c != '#'
}

/// The vmoptions read from the file content `content`: its lines, kept in
/// file order, with blank and comment lines dropped and the rest verbatim.
pub fn filter_vmoptions(content: &str) -> (r: Vec<String>)
    ensures
        r.deep_view() == kept_lines(content@),
{
    let n = content.unicode_len();
    let mut out: Vec<String> = Vec::new();
    let mut i: usize = 0;
    let mut start: usize = 0;
    proof {
        assert(content@.subrange(0, n as int) =~= content@);
        assert(out.deep_view() =~= Seq::<Seq<char>>::empty());
        assert(content@.subrange(0int, 0int) =~= Seq::<char>::empty());
        assert(out.deep_view() + kept_from(content@.subrange(0, n as int), Seq::<char>::empty())
            =~= kept_lines(content@));
    }
    while i < n
        invariant
            0 <= start <= i <= n,
            n == content@.len(),
            forall|k: int| start <= k < i ==> content@[k] != '\n',
            kept_lines(content@) == out.deep_view() + kept_from(
                content@.subrange(i as int, n as int),
                content@.subrange(start as int, i as int),
            ),
        decreases n - i,
    {
        let ghost rest = content@.subrange(i as int, n as int);
        let ghost cur = content@.subrange(start as int, i as int);
        let c = content.get_char(i);
        proof {
            assert(rest[0] == content@[i as int]);
            assert(rest.drop_first() =~= content@.subrange(i + 1, n as int));
        }
        if c == '\n' {
            let line = if i > start && content.get_char(i - 1) == '\r' {
                content.substring_char(start, i - 1)
            } else {
                content.substring_char(start, i)
            };
            proof {
                if cur.len() > 0 && cur.last() == '\r' {
                    assert(cur.drop_last() =~= content@.subrange(start as int, i - 1));
                }
                assert(line@ == strip_cr(cur));
                assert(kept_from(rest, cur) == (if keep_line(strip_cr(cur)) {
                    seq![strip_cr(cur)]
                } else {
                    Seq::<Seq<char>>::empty()
                }) + kept_from(content@.subrange(i + 1, n as int), Seq::<char>::empty()));
            }
            let ghost old_deep = out.deep_view();
            if line_kept(line) {
                out.push(String::from_str(line));
                proof {
                    assert(out.deep_view() =~= old_deep.push(line@));
                    assert(old_deep.push(line@) =~= old_deep + seq![line@]);
                }
            }
            proof {
                assert(out.deep_view() + kept_from(
                    content@.subrange(i + 1, n as int),
                    Seq::<char>::empty(),
                ) =~= old_deep + kept_from(rest, cur));
                assert(content@.subrange(i + 1, i + 1) =~= Seq::<char>::empty());
            }
            start = i + 1;
        } else {
            proof {
                assert(cur.push(content@[i as int]) =~= content@.subrange(start as int, i + 1));
                assert(kept_from(rest, cur) == kept_from(
                    content@.subrange(i + 1, n as int),
                    content@.subrange(start as int, i + 1),
                ));
            }
        }
        i = i + 1;
    }
    let ghost cur = content@.subrange(start as int, n as int);
    proof {
        assert(content@.subrange(n as int, n as int) =~= Seq::<char>::empty());
    }
    if start < n {
        let line = content.substring_char(start, n);
        let ghost old_deep = out.deep_view();
        if line_kept(line) {
            out.push(String::from_str(line));
            proof {
                assert(out.deep_view() =~= old_deep.push(line@));
                assert(old_deep.push(line@) =~= old_deep + seq![line@]);
                assert(out.deep_view() =~= kept_lines(content@));
            }
        } else {
            proof {
                assert(out.deep_view() + Seq::<Seq<char>>::empty() =~= out.deep_view());
            }
        }
    } else {
        proof {
            assert(cur =~= Seq::<char>::empty());
            assert(trim(cur) =~= Seq::<char>::empty());
            assert(!keep_line(cur));
            assert(out.deep_view() + Seq::<Seq<char>>::empty() =~= out.deep_view());
        }
    }
    proof {
        assert(out.deep_view() =~= kept_lines(content@));
    }
    out
}

/// The directive that names the notification port file.
pub open spec fn directive_prefix() -> Seq<char> {
    "-Dtoolbox.notification.portFile="@
}

/// The port-file path named by the first vmoptions line that starts with
/// the notification-port directive, when there is one.
pub open spec fn port_file_of(lines: Seq<Seq<char>>) -> Option<Seq<char>>
    decreases lines.len(),
{
    if lines.len() == 0 {
        None
    } else if has_prefix(lines[0], directive_prefix()) {
        Some(lines[0].subrange(directive_prefix().len() as int, lines[0].len() as int))
    } else {
        port_file_of(lines.drop_first())
    }
}

/// A port-file path is found exactly when some line starts with the
/// directive, and it is the remainder of the first such line.
pub proof fn lemma_port_file_first_match(lines: Seq<Seq<char>>)
    ensures
        port_file_of(lines) is Some ==> exists|i: int|
            {
                &&& 0 <= i < lines.len()
                &&& has_prefix(#[trigger] lines[i], directive_prefix())
                &&& (forall|j: int| 0 <= j < i ==> !has_prefix(lines[j], directive_prefix()))
                &&& port_file_of(lines) == Some(
                    lines[i].subrange(directive_prefix().len() as int, lines[i].len() as int),
                )
            },
        port_file_of(lines) is None ==> forall|i: int| 0 <= i < lines.len() ==> !has_prefix(
            #[trigger] lines[i],
            directive_prefix(),
        ),
    decreases lines.len(),
{
    if lines.len() > 0 {
        let rest = lines.drop_first();
        lemma_port_file_first_match(rest);
        if has_prefix(lines[0], directive_prefix()) {
            assert({
                &&& 0 <= 0 < lines.len()
                &&& has_prefix(lines[0], directive_prefix())
                &&& (forall|j: int| 0 <= j < 0 ==> !has_prefix(lines[j], directive_prefix()))
                &&& port_file_of(lines) == Some(
                    lines[0].subrange(directive_prefix().len() as int, lines[0].len() as int),
                )
            });
        } else if port_file_of(lines) is Some {
            let i = choose|i: int|
                {
                    &&& 0 <= i < rest.len()
                    &&& has_prefix(#[trigger] rest[i], directive_prefix())
                    &&& (forall|j: int| 0 <= j < i ==> !has_prefix(rest[j], directive_prefix()))
                    &&& port_file_of(rest) == Some(
                        rest[i].subrange(directive_prefix().len() as int, rest[i].len() as int),
                    )
                };
            assert(lines[i + 1] == rest[i]);
            assert forall|j: int| 0 <= j < i + 1 implies !has_prefix(
                #[trigger] lines[j],
                directive_prefix(),
            ) by {
                if j > 0 {
                    assert(rest[j - 1] == lines[j]);
                }
            }
            assert({
                &&& 0 <= i + 1 < lines.len()
                &&& has_prefix(lines[i + 1], directive_prefix())
                &&& (forall|j: int| 0 <= j < i + 1 ==> !has_prefix(lines[j], directive_prefix()))
                &&& port_file_of(lines) == Some(
                    lines[i + 1].subrange(
                        directive_prefix().len() as int,
                        lines[i + 1].len() as int,
                    ),
                )
            });
        } else {
            assert forall|k: int| 0 <= k < lines.len() implies !has_prefix(
                #[trigger] lines[k],
                directive_prefix(),
            ) by {
                if k > 0 {
                    assert(rest[k - 1] == lines[k]);
                }
            }
        }
    }
}

/// The port-file path named in `vmoptions`: the remainder of the first
/// line that starts with the notification-port directive.
pub fn get_port_file_path(vmoptions: &Vec<String>) -> (r: Option<String>)
    ensures
        r.deep_view() == port_file_of(vmoptions.deep_view()),
{
    let n = vmoptions.len();
    let mut i: usize = 0;
    proof {
        assert(vmoptions.deep_view().subrange(0, n as int) =~= vmoptions.deep_view());
    }
    while i < n
        invariant
            0 <= i <= n,
            n == vmoptions.len(),
            port_file_of(vmoptions.deep_view()) == port_file_of(
                vmoptions.deep_view().subrange(i as int, n as int),
            ),
        decreases n - i,
    {
        let ghost rest = vmoptions.deep_view().subrange(i as int, n as int);
        let line = &vmoptions[i];
        proof {
            assert(rest[0] == line@);
            assert(rest.drop_first() =~= vmoptions.deep_view().subrange(i + 1, n as int));
        }
        if str_has_prefix(line, "-Dtoolbox.notification.portFile=") {
            let plen = "-Dtoolbox.notification.portFile=".unicode_len();
            let llen = line.unicode_len();
            let path = line.substring_char(plen, llen);
            proof {
                assert(path@ =~= line@.subrange(
                    directive_prefix().len() as int,
                    line@.len() as int,
                ));
            }
            return Some(String::from_str(path));
        }
        i = i + 1;
    }
    proof {
        assert(vmoptions.deep_view().subrange(n as int, n as int)
            =~= Seq::<Seq<char>>::empty());
    }
    None
}

} // verus!
