//! Autocompletion of the tag being typed in a pane's tag filter: the last
//! whitespace-separated token, a `tag:`-style prefix, or a `tag:level` pair.
use vstd::prelude::*;
use crate::text::{chars_of, find_char_from, has_char, has_ws, is_first_char, is_last_ws, push_char, push_chars, rfind_ws, slice_of, starts_with, starts_with_str, string_from};

verus! {

/// The position of the last whitespace character.
pub open spec fn last_ws_index(s: Seq<char>) -> int {
    choose|i: int| is_last_ws(s, i)
}

/// Where the token being typed starts: just after the last whitespace.
pub open spec fn token_start(s: Seq<char>) -> int {
    if has_ws(s) {
        last_ws_index(s) + 1
    } else {
        0
    }
}

/// The token is cut off one byte after the last whitespace character, which
/// is a character boundary only when that character is ASCII; other input
/// makes the slicing panic.
pub open spec fn token_cut_is_boundary(s: Seq<char>) -> bool {
    has_ws(s) ==> (s[last_ws_index(s)] as u32) < 128
}

/// The token being typed.
pub open spec fn tag_token(s: Seq<char>) -> Seq<char> {
    s.subrange(token_start(s), s.len() as int)
}

/// The length of the `tag-:`, `tag~:` or `tag:` prefix the token starts with.
pub open spec fn prefix_len(token: Seq<char>) -> Option<nat> {
    if starts_with(token, "tag-:"@) {
        Some("tag-:"@.len())
    } else if starts_with(token, "tag~:"@) {
        Some("tag~:"@.len())
    } else if starts_with(token, "tag:"@) {
        Some("tag:"@.len())
    } else {
        None
    }
}

/// Where the tag part of a `tag:level` token ends.
pub open spec fn tag_end(token: Seq<char>) -> int {
    if has_char(token, ':') {
        choose|i: int| is_first_char(token, ':', i)
    } else {
        token.len() as int
    }
}

/// The part of the input (in characters, end exclusive) that a completion
/// replaces: after a `tag:`-style prefix, the rest of the input; otherwise
/// the tag before the first `:` of the token, unless it is empty or `*`.
pub open spec fn tag_value_range(s: Seq<char>) -> Option<(int, int)> {
    let ts = token_start(s);
    let token = tag_token(s);
    if token.len() == 0 {
        None
    } else {
        match prefix_len(token) {
            Some(p) => if ts + p < s.len() {
                Some((ts + p, s.len() as int))
            } else {
                None
            },
            None => {
                let te = tag_end(token);
                let tag = token.take(te);
                if tag.len() == 0 || tag == "*"@ {
                    None
                } else {
                    Some((ts, ts + te))
                }
            },
        }
    }
}

/// A completed bare tag gets a `:` after it, ready for a level.
pub open spec fn needs_level_separator(s: Seq<char>) -> bool {
    let token = tag_token(s);
    token.len() > 0 && !has_char(token, ':') && prefix_len(token) is None
}

/// Where the token being typed starts.
fn token_start_exec(s: &[char]) -> (i: usize)
    ensures
        i == token_start(s@),
        i <= s.len(),
{
    match rfind_ws(s) {
        Some(p) => {
            proof {
                let q = last_ws_index(s@);
                assert(is_last_ws(s@, p as int));
                if q < p {
                    assert(crate::text::is_ws(s@[p as int]));
                } else if q > p {
                    assert(crate::text::is_ws(s@[q]));
                }
            }
            assert(p < s.len());
            p + 1
        },
        None => 0,
    }
}

/// The length of the token's `tag:`-style prefix.
fn prefix_len_exec(token: &[char]) -> (r: Option<usize>)
    ensures
        match prefix_len(token@) {
            Some(p) => r == Some(p as usize),
            None => r is None,
        },
{
    let a = chars_of("tag-:");
    let b = chars_of("tag~:");
    let c = chars_of("tag:");
    if starts_with_str(token, "tag-:") {
        Some(a.len())
    } else if starts_with_str(token, "tag~:") {
        Some(b.len())
    } else if starts_with_str(token, "tag:") {
        Some(c.len())
    } else {
        None
    }
}

/// The range (in characters) of the input that a completion replaces.
pub fn current_tag_value_range(input: &str) -> (r: Option<(usize, usize)>)
    requires
        token_cut_is_boundary(input@),
    ensures
        match tag_value_range(input@) {
            Some((a, b)) => (r matches Some((x, y)) && x == a && y == b),
            None => r is None,
        },
        r matches Some((a, b)) ==> a <= b <= input@.len(),
{
    let s = chars_of(input);
    let ts = token_start_exec(&s);
    let token = slice_of(&s, ts, s.len());
    if token.len() == 0 {
        return None;
    }
    match prefix_len_exec(&token) {
        Some(p) => {
            if ts + p < s.len() {
                Some((ts + p, s.len()))
            } else {
                None
            }
        },
        None => {
            let te = match find_char_from(&token, ':', 0) {
                Some(i) => {
                    proof {
                        assert(is_first_char(token@, ':', i as int));
                        assert(has_char(token@, ':'));
                        let q = choose|q: int| is_first_char(token@, ':', q);
                        if q < i {
                            assert(token@[q] == ':');
                        } else if q > i {
                            assert(token@[i as int] == ':');
                        }
                    }
                    i
                },
                None => {
                    proof {
                        assert(!has_char(token@, ':'));
                    }
                    token.len()
                },
            };
            let tag = slice_of(&token, 0, te);
            assert(tag@ =~= token@.take(te as int));
            if tag.len() == 0 || (tag.len() == 1 && tag[0] == '*') {
                proof {
                    if tag.len() == 1 {
                        reveal_strlit("*");
                        assert(tag@ =~= "*"@);
                    }
                }
                None
            } else {
                proof {
                    reveal_strlit("*");
                    if tag@ == "*"@ {
                        assert(tag@.len() == 1);
                    }
                }
                Some((ts, ts + te))
            }
        },
    }
}

/// The part of the input a completion would replace (empty when there is
/// none).
pub fn extract_partial_tag_value(input: &str) -> (r: String)
    requires
        token_cut_is_boundary(input@),
    ensures
        r@ == match tag_value_range(input@) {
            Some((a, b)) => input@.subrange(a, b),
            None => Seq::empty(),
        },
{
    match current_tag_value_range(input) {
        Some((start, end)) => {
            let s = chars_of(input);
            let v = slice_of(&s, start, end);
            string_from(&v)
        },
        None => String::new(),
    }
}

/// Whether completing the token should add a `:` for the level.
pub fn should_append_level_separator(input: &str) -> (b: bool)
    requires
        token_cut_is_boundary(input@),
    ensures
        b == needs_level_separator(input@),
{
    let s = chars_of(input);
    let ts = token_start_exec(&s);
    let token = slice_of(&s, ts, s.len());
    let no_colon = find_char_from(&token, ':', 0).is_none();
    proof {
        if !no_colon {
            let i = choose|i: int| 0 <= i < token@.len() && token@[i] == ':';
        }
        if has_char(token@, ':') {
            let i = choose|i: int| 0 <= i < token@.len() && token@[i] == ':';
            assert(token@[i] == ':');
        }
    }
    token.len() > 0 && no_colon && prefix_len_exec(&token).is_none()
}

/// Replace the part of the input a completion replaces with `replacement`,
/// adding a `:` after a completed bare tag. Input with nothing to complete
/// is left as it is.
pub fn replace_partial_tag_value(input: &mut String, replacement: &str)
    requires
        token_cut_is_boundary(old(input)@),
    ensures
        final(input)@ == match tag_value_range(old(input)@) {
            Some((a, b)) => old(input)@.take(a) + replacement@ + old(input)@.skip(b) + (if needs_level_separator(
                old(input)@,
            ) {
                seq![':']
            } else {
                Seq::empty()
            }),
            None => old(input)@,
        },
{
    let range = current_tag_value_range(input.as_str());
    let (start, end) = match range {
        Some(r) => r,
        None => return,
    };
    let append_level_separator = should_append_level_separator(input.as_str());
    let s = chars_of(input.as_str());
    let head = slice_of(&s, 0, start);
    let tail = slice_of(&s, end, s.len());
    let mut out = string_from(&head);
    out.append(replacement);
    push_chars(&mut out, &tail);
    if append_level_separator {
        push_char(&mut out, ':');
    }
    proof {
        assert(head@ =~= s@.take(start as int));
        assert(tail@ =~= s@.skip(end as int));
    }
    *input = out;
}

} // verus!
