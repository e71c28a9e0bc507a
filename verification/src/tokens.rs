//! Line and token splitting: newline-separated lines, white-space-separated
//! tokens, and joining tokens back with single spaces.

use vstd::prelude::*;
use vstd::string::{StrSliceExecFns, StringExecFns};
use crate::text::lemma_filter_push;

verus! {

/// The views of a sequence of strings.
pub open spec fn string_views(s: Seq<String>) -> Seq<Seq<char>> {
    s.map_values(|t: String| t@)
}

/// A Unicode white-space character.
pub open spec fn is_ws(c: char) -> bool {
    ||| c == ' '
    ||| c == '\t'
    ||| c == '\n'
    ||| c == '\r'
    ||| c == '\u{b}'
    ||| c == '\u{c}'
    ||| c == '\u{85}'
    ||| c == '\u{a0}'
    ||| c == '\u{1680}'
    ||| (0x2000 <= (c as u32) && (c as u32) <= 0x200a)
    ||| c == '\u{2028}'
    ||| c == '\u{2029}'
    ||| c == '\u{202f}'
    ||| c == '\u{205f}'
    ||| c == '\u{3000}'
}

/// Decide whether `c` is white space.
pub fn ws_char(c: char) -> (r: bool)
    ensures
        r == is_ws(c),
{
    c == ' ' || c == '\t' || c == '\n' || c == '\r' || c == '\u{b}' || c == '\u{c}' || c
        == '\u{85}' || c == '\u{a0}' || c == '\u{1680}' || ((c as u32) >= 0x2000 && (c as u32)
        <= 0x200a) || c == '\u{2028}' || c == '\u{2029}' || c == '\u{202f}' || c == '\u{205f}' || c
        == '\u{3000}'
}

/// The lines of `s`: fields split at every newline, empty fields kept.
pub open spec fn spec_lines(s: Seq<char>) -> Seq<Seq<char>>
    decreases s.len(),
{
    if s.len() == 0 {
        seq![Seq::<char>::empty()]
    } else if s[0] == '\n' {
        seq![Seq::<char>::empty()] + spec_lines(s.drop_first())
    } else {
        let rest = spec_lines(s.drop_first());
        seq![seq![s[0]] + rest[0]] + rest.drop_first()
    }
}

/// The fields of `s` split at every white-space character, empty kept.
pub open spec fn spec_ws_fields(s: Seq<char>) -> Seq<Seq<char>>
    decreases s.len(),
{
    if s.len() == 0 {
        seq![Seq::<char>::empty()]
    } else if is_ws(s[0]) {
        seq![Seq::<char>::empty()] + spec_ws_fields(s.drop_first())
    } else {
        let rest = spec_ws_fields(s.drop_first());
        seq![seq![s[0]] + rest[0]] + rest.drop_first()
    }
}

/// The white-space-separated tokens of `s`: its nonempty fields.
pub open spec fn spec_tokens(s: Seq<char>) -> Seq<Seq<char>> {
    spec_ws_fields(s).filter(|t: Seq<char>| t.len() > 0)
}

/// A split always has at least one field.
pub proof fn lemma_lines_nonempty(s: Seq<char>)
    ensures
        spec_lines(s).len() >= 1,
    decreases s.len(),
{
    if s.len() > 0 && s[0] != '\n' {
        lemma_lines_nonempty(s.drop_first());
    }
}

/// A split always has at least one field.
pub proof fn lemma_ws_fields_nonempty(s: Seq<char>)
    ensures
        spec_ws_fields(s).len() >= 1,
    decreases s.len(),
{
    if s.len() > 0 && !is_ws(s[0]) {
        lemma_ws_fields_nonempty(s.drop_first());
    }
}

/// `p` prepended to the first field of a split.
pub open spec fn prepend_first(p: Seq<char>, fields: Seq<Seq<char>>) -> Seq<Seq<char>> {
    seq![p + fields[0]] + fields.drop_first()
}

/// Split `s` into its lines.
pub fn split_newlines(s: &str) -> (r: Vec<String>)
    ensures
        string_views(r@) == spec_lines(s@),
{
    let len = s.unicode_len();
    let mut out: Vec<String> = Vec::new();
    let mut start: usize = 0;
    let mut i: usize = 0;
    proof {
        lemma_lines_nonempty(s@);
        assert(s@.skip(0) =~= s@);
        assert(s@.subrange(0, 0) + spec_lines(s@)[0] =~= spec_lines(s@)[0]);
        assert(string_views(out@) + prepend_first(s@.subrange(0, 0), spec_lines(s@.skip(0)))
            =~= spec_lines(s@));
    }
    while i < len
        invariant
            len == s@.len(),
            start <= i <= len,
            string_views(out@) + prepend_first(
                s@.subrange(start as int, i as int),
                spec_lines(s@.skip(i as int)),
            ) == spec_lines(s@),
        decreases len - i,
    {
        let ghost cur = s@.subrange(start as int, i as int);
        let ghost tail = s@.skip(i as int);
        proof {
            assert(tail[0] == s@[i as int]);
            assert(tail.drop_first() =~= s@.skip(i + 1));
            lemma_lines_nonempty(s@.skip(i + 1));
        }
        let c = s.get_char(i);
        if c == '\n' {
            let piece = s.substring_char(start, i).to_owned();
            proof {
                let rest = spec_lines(s@.skip(i + 1));
                assert(spec_lines(tail) == seq![Seq::<char>::empty()] + rest);
                assert(cur + Seq::<char>::empty() =~= cur);
                assert(prepend_first(cur, spec_lines(tail)) =~= seq![cur] + rest);
                assert(string_views(out@.push(piece)) =~= string_views(out@) + seq![cur]);
                assert(s@.subrange(i + 1, i + 1) + rest[0] =~= rest[0]);
                assert(prepend_first(s@.subrange(i + 1, i + 1), rest) =~= rest);
                assert((string_views(out@) + seq![cur]) + rest =~= string_views(out@) + (
                seq![cur] + rest));
            }
            out.push(piece);
            start = i + 1;
        } else {
            proof {
                let rest = spec_lines(s@.skip(i + 1));
                assert(spec_lines(tail) == seq![seq![tail[0]] + rest[0]] + rest.drop_first());
                assert(cur + (seq![s@[i as int]] + rest[0]) =~= s@.subrange(
                    start as int,
                    i + 1,
                ) + rest[0]);
                assert(prepend_first(cur, spec_lines(tail)) =~= prepend_first(
                    s@.subrange(start as int, i + 1),
                    rest,
                ));
            }
        }
        i += 1;
    }
    let piece = s.substring_char(start, len).to_owned();
    proof {
        let tail = s@.skip(len as int);
        assert(tail =~= Seq::<char>::empty());
        assert(spec_lines(tail) == seq![Seq::<char>::empty()]);
        let cur = s@.subrange(start as int, len as int);
        assert(cur + Seq::<char>::empty() =~= cur);
        assert(prepend_first(cur, spec_lines(tail)) =~= seq![cur]);
        assert(string_views(out@.push(piece)) =~= string_views(out@) + seq![cur]);
    }
    out.push(piece);
    out
}

/// Split `s` into its white-space-separated fields, empty fields kept.
pub fn split_ws_fields(s: &str) -> (r: Vec<String>)
    ensures
        string_views(r@) == spec_ws_fields(s@),
{
    let len = s.unicode_len();
    let mut out: Vec<String> = Vec::new();
    let mut start: usize = 0;
    let mut i: usize = 0;
    proof {
        lemma_ws_fields_nonempty(s@);
        assert(s@.skip(0) =~= s@);
        assert(s@.subrange(0, 0) + spec_ws_fields(s@)[0] =~= spec_ws_fields(s@)[0]);
        assert(string_views(out@) + prepend_first(s@.subrange(0, 0), spec_ws_fields(s@.skip(0)))
            =~= spec_ws_fields(s@));
    }
    while i < len
        invariant
            len == s@.len(),
            start <= i <= len,
            string_views(out@) + prepend_first(
                s@.subrange(start as int, i as int),
                spec_ws_fields(s@.skip(i as int)),
            ) == spec_ws_fields(s@),
        decreases len - i,
    {
        let ghost cur = s@.subrange(start as int, i as int);
        let ghost tail = s@.skip(i as int);
        proof {
            assert(tail[0] == s@[i as int]);
            assert(tail.drop_first() =~= s@.skip(i + 1));
            lemma_ws_fields_nonempty(s@.skip(i + 1));
        }
        let c = s.get_char(i);
        if ws_char(c) {
            let piece = s.substring_char(start, i).to_owned();
            proof {
                let rest = spec_ws_fields(s@.skip(i + 1));
                assert(spec_ws_fields(tail) == seq![Seq::<char>::empty()] + rest);
                assert(cur + Seq::<char>::empty() =~= cur);
                assert(prepend_first(cur, spec_ws_fields(tail)) =~= seq![cur] + rest);
                assert(string_views(out@.push(piece)) =~= string_views(out@) + seq![cur]);
                assert(s@.subrange(i + 1, i + 1) + rest[0] =~= rest[0]);
                assert(prepend_first(s@.subrange(i + 1, i + 1), rest) =~= rest);
                assert((string_views(out@) + seq![cur]) + rest =~= string_views(out@) + (
                seq![cur] + rest));
            }
            out.push(piece);
            start = i + 1;
        } else {
            proof {
                let rest = spec_ws_fields(s@.skip(i + 1));
                assert(spec_ws_fields(tail) == seq![seq![tail[0]] + rest[0]] + rest.drop_first());
                assert(cur + (seq![s@[i as int]] + rest[0]) =~= s@.subrange(
                    start as int,
                    i + 1,
                ) + rest[0]);
                assert(prepend_first(cur, spec_ws_fields(tail)) =~= prepend_first(
                    s@.subrange(start as int, i + 1),
                    rest,
                ));
            }
        }
        i += 1;
    }
    let piece = s.substring_char(start, len).to_owned();
    proof {
        let tail = s@.skip(len as int);
        assert(tail =~= Seq::<char>::empty());
        assert(spec_ws_fields(tail) == seq![Seq::<char>::empty()]);
        let cur = s@.subrange(start as int, len as int);
        assert(cur + Seq::<char>::empty() =~= cur);
        assert(prepend_first(cur, spec_ws_fields(tail)) =~= seq![cur]);
        assert(string_views(out@.push(piece)) =~= string_views(out@) + seq![cur]);
    }
    out.push(piece);
    out
}

/// The white-space-separated tokens of `line`.
pub fn tokens_of(line: &str) -> (r: Vec<String>)
    ensures
        string_views(r@) == spec_tokens(line@),
{
    let fields = split_ws_fields(line);
    let ghost forig: Seq<String> = fields@;
    let mut toks: Vec<String> = Vec::new();
    let mut src = fields;
    proof {
        assert(src@ =~= forig.skip(0));
        assert(string_views(forig.subrange(0, 0)) =~= Seq::<Seq<char>>::empty());
        assert(Seq::<Seq<char>>::empty().filter(|t: Seq<char>| t.len() > 0)
            =~= Seq::<Seq<char>>::empty());
    }
    while src.len() > 0
        invariant
            src@.len() <= forig.len(),
            src@ == forig.skip(forig.len() - src@.len()),
            string_views(toks@) == string_views(
                forig.subrange(0, forig.len() - src@.len()),
            ).filter(|t: Seq<char>| t.len() > 0),
        decreases src@.len(),
    {
        let ghost done = forig.len() - src@.len();
        let x = src.remove(0);
        proof {
            assert(x == forig[done]);
            assert(forig.skip(done).remove(0) =~= forig.skip(done + 1));
            assert(forig.subrange(0, done + 1) =~= forig.subrange(0, done).push(x));
            assert(string_views(forig.subrange(0, done).push(x)) =~= string_views(
                forig.subrange(0, done),
            ).push(x@));
            lemma_filter_push(
                string_views(forig.subrange(0, done)),
                |t: Seq<char>| t.len() > 0,
                x@,
            );
        }
        if x.as_str().unicode_len() > 0 {
            proof {
                assert(string_views(toks@.push(x)) =~= string_views(toks@).push(x@));
            }
            toks.push(x);
        }
    }
    proof {
        assert(forig.subrange(0, forig.len() as int) =~= forig);
    }
    toks
}

/// The single spaces joining of `parts`.
pub open spec fn spec_join_space(parts: Seq<Seq<char>>) -> Seq<char>
    decreases parts.len(),
{
    if parts.len() == 0 {
        Seq::empty()
    } else if parts.len() == 1 {
        parts[0]
    } else {
        parts[0] + seq![' '] + spec_join_space(parts.drop_first())
    }
}

/// Joining past a pushed part.
pub proof fn lemma_join_push(s: Seq<Seq<char>>, x: Seq<char>)
    ensures
        spec_join_space(s.push(x)) == if s.len() == 0 {
            x
        } else {
            spec_join_space(s) + seq![' '] + x
        },
    decreases s.len(),
{
    if s.len() == 0 {
        assert(s.push(x)[0] == x);
        assert(spec_join_space(s.push(x)) == x);
    } else {
        lemma_join_push(s.drop_first(), x);
        assert(s.push(x).drop_first() =~= s.drop_first().push(x));
        assert(s.push(x)[0] == s[0]);
        if s.len() == 1 {
            assert(spec_join_space(s.push(x)) == s[0] + seq![' '] + x);
            assert(spec_join_space(s) == s[0]);
        } else {
            assert(spec_join_space(s.push(x)) == s[0] + seq![' '] + (spec_join_space(
                s.drop_first(),
            ) + seq![' '] + x));
            assert(s[0] + seq![' '] + (spec_join_space(s.drop_first()) + seq![' '] + x) =~= (s[0]
                + seq![' '] + spec_join_space(s.drop_first())) + seq![' '] + x);
        }
    }
}

/// Join the first `upto` parts with single spaces.
pub fn join_space(parts: &Vec<String>, upto: usize) -> (r: String)
    requires
        upto <= parts@.len(),
    ensures
        r@ == spec_join_space(string_views(parts@).subrange(0, upto as int)),
{
    let mut out = String::new();
    let mut j: usize = 0;
    proof {
        assert(string_views(parts@).subrange(0, 0) =~= Seq::<Seq<char>>::empty());
    }
    while j < upto
        invariant
            upto <= parts@.len(),
            j <= upto,
            out@ == spec_join_space(string_views(parts@).subrange(0, j as int)),
        decreases upto - j,
    {
        let ghost sofar = string_views(parts@).subrange(0, j as int);
        proof {
            assert(string_views(parts@).subrange(0, j + 1) =~= sofar.push(parts@[j as int]@));
            lemma_join_push(sofar, parts@[j as int]@);
        }
        if j > 0 {
            out.append(" ");
            proof {
                reveal_strlit(" ");
                assert(" "@ =~= seq![' ']);
            }
        }
        out.append(parts[j].as_str());
        proof {
            if j > 0 {
                assert(spec_join_space(sofar) + " "@ + parts@[j as int]@ =~= spec_join_space(
                    sofar,
                ) + seq![' '] + parts@[j as int]@);
            }
        }
        j += 1;
    }
    out
}

} // verus!
