//! Decoding the text lines of an HTTP/1.1 request as the stream-level relay
//! reads them: the request line into method, path and version, and each
//! header line into a lower-cased name and a value.

use crate::text::{ascii_lower, find_char, spec_ascii_lower};
use vstd::prelude::*;

verus! {

/// The pieces of `s` between occurrences of `sep`, in order; `n + 1` pieces
/// for `n` separators.
pub open spec fn spec_split(s: Seq<char>, sep: char) -> Seq<Seq<char>>
    decreases s.len(),
    via spec_split_decreases
{
    match crate::text::spec_find(s, sep) {
        None => seq![s],
        Some(i) => seq![s.subrange(0, i)] + spec_split(s.skip(i + 1), sep),
    }
}

#[via_fn]
proof fn spec_split_decreases(s: Seq<char>, sep: char) {
    crate::text::lemma_spec_find_correct(s, sep);
}

/// Splits `s` at every occurrence of `sep`, keeping empty pieces, the way
/// std splits on a character.
pub fn split_char(s: &str, sep: char) -> (r: Vec<String>)
    ensures
        r@.map_values(|x: String| x@) == spec_split(s@, sep),
{
    let r = split_from(s, sep, 0);
    proof {
        assert(s@.skip(0) =~= s@);
    }
    r
}

/// Splits the tail of `s` that starts at `start`.
fn split_from(s: &str, sep: char, start: usize) -> (r: Vec<String>)
    requires
        start <= s@.len(),
    ensures
        r@.map_values(|x: String| x@) == spec_split(s@.skip(start as int), sep),
    decreases s@.len() - start,
{
    let n = s.unicode_len();
    let sub = s.substring_char(start, n);
    proof {
        assert(sub@ =~= s@.skip(start as int));
        crate::text::lemma_spec_find_correct(sub@, sep);
    }
    match find_char(sub, sep) {
        None => {
            let mut r: Vec<String> = Vec::new();
            r.push(String::from_str(sub));
            proof {
                assert(r@.map_values(|x: String| x@) =~= seq![sub@]);
            }
            r
        },
        Some(j) => {
            proof {
                assert(crate::text::spec_find(sub@, sep) == Some(j as int));
                assert(s@.skip(start as int).skip(j + 1 as int) =~= s@.skip(start + j + 1 as int));
            }
            let first = sub.substring_char(0, j);
            let mut rest = split_from(s, sep, start + j + 1);
            rest.insert(0, String::from_str(first));
            proof {
                assert(rest@.map_values(|x: String| x@) =~= seq![sub@.subrange(0, j as int)]
                    + spec_split(s@.skip(start + j + 1 as int), sep));
            }
            rest
        },
    }
}

/// Whether `c` is one of the whitespace characters a line's ends are trimmed
/// of: the Unicode whitespace set std trims, from tab through the ideographic
/// space.
pub open spec fn is_space_char(c: char) -> bool {
    ||| (9 <= c as u32 && c as u32 <= 13)
    ||| c as u32 == 32
    ||| c as u32 == 0x85
    ||| c as u32 == 0xa0
    ||| c as u32 == 0x1680
    ||| (0x2000 <= c as u32 && c as u32 <= 0x200a)
    ||| c as u32 == 0x2028
    ||| c as u32 == 0x2029
    ||| c as u32 == 0x202f
    ||| c as u32 == 0x205f
    ||| c as u32 == 0x3000
}

/// `s` without leading and trailing whitespace.
pub open spec fn spec_trim(s: Seq<char>) -> Seq<char>
    decreases s.len(),
{
    if s.len() == 0 {
        s
    } else if is_space_char(s[0]) {
        spec_trim(s.skip(1))
    } else if is_space_char(s.last()) {
        spec_trim(s.drop_last())
    } else {
        s
    }
}

/// Whether `c` spells one of the trimmed whitespace characters.
fn is_space(c: char) -> (r: bool)
    ensures
        r == is_space_char(c),
{
    let u = c as u32;
    (9 <= u && u <= 13) || u == 32 || u == 0x85 || u == 0xa0 || u == 0x1680 || (0x2000 <= u && u
        <= 0x200a) || u == 0x2028 || u == 0x2029 || u == 0x202f || u == 0x205f || u == 0x3000
}

/// Removes leading and trailing whitespace.
pub fn trim_str(s: &str) -> (r: String)
    ensures
        r@ == spec_trim(s@),
    decreases s@.len(),
{
    let n = s.unicode_len();
    if n == 0 {
        return String::from_str(s);
    }
    if is_space(s.get_char(0)) {
        let rest = s.substring_char(1, n);
        proof {
            assert(rest@ =~= s@.skip(1));
        }
        trim_str(rest)
    } else if is_space(s.get_char(n - 1)) {
        let rest = s.substring_char(0, n - 1);
        proof {
            assert(rest@ =~= s@.drop_last());
        }
        trim_str(rest)
    } else {
        String::from_str(s)
    }
}

/// What decoding a request line returns: the line's first three
/// space-separated pieces, each trimmed of surrounding whitespace — method,
/// path and protocol version — or nothing when fewer than three exist.
pub open spec fn spec_parse_request_line(line: Seq<char>) -> Option<(Seq<char>, Seq<char>, Seq<char>)> {
    let parts = spec_split(line, ' ');
    if parts.len() >= 3 {
        Some((spec_trim(parts[0]), spec_trim(parts[1]), spec_trim(parts[2])))
    } else {
        None
    }
}

/// Decodes the request line of an HTTP/1.1 request into its method, path and
/// protocol version; a line of fewer than three space-separated pieces is
/// refused, which closes only the owning connection.
pub fn parse_request_line(line: &str) -> (r: Option<(String, String, String)>)
    ensures
        match r {
            Some(p) => spec_parse_request_line(line@) matches Some(v) && p.0@ == v.0 && p.1@ == v.1
                && p.2@ == v.2,
            None => spec_parse_request_line(line@) is None,
        },
{
    let parts = split_char(line, ' ');
    if parts.len() < 3 {
        return None;
    }
    proof {
        assert(parts@[0]@ == spec_split(line@, ' ')[0]);
        assert(parts@[1]@ == spec_split(line@, ' ')[1]);
        assert(parts@[2]@ == spec_split(line@, ' ')[2]);
    }
    let method = trim_str(parts[0].as_str());
    let path = trim_str(parts[1].as_str());
    let version = trim_str(parts[2].as_str());
    Some((method, path, version))
}

/// What decoding a header line returns: the text before the first `:` as the
/// name, trimmed and lower-cased, and the text after it as the value,
/// trimmed — or nothing when the line has no `:`.
pub open spec fn spec_parse_header_line(line: Seq<char>) -> Option<(Seq<char>, Seq<char>)> {
    match crate::text::spec_find(line, ':') {
        None => None,
        Some(i) => Some(
            (spec_ascii_lower(spec_trim(line.subrange(0, i))), spec_trim(line.skip(i + 1))),
        ),
    }
}

/// Decodes one header line into its name, lower-cased and trimmed, and its
/// value, trimmed; a line without `:` carries no header.
pub fn parse_header_line(line: &str) -> (r: Option<(String, String)>)
    ensures
        match r {
            Some(p) => spec_parse_header_line(line@) matches Some(v) && p.0@ == v.0 && p.1@ == v.1,
            None => spec_parse_header_line(line@) is None,
        },
{
    let n = line.unicode_len();
    proof {
        crate::text::lemma_spec_find_correct(line@, ':');
    }
    match find_char(line, ':') {
        None => None,
        Some(i) => {
            proof {
                assert(crate::text::spec_find(line@, ':') == Some(i as int));
                assert(line.view().subrange(0, i as int) =~= line@.take(i as int));
            }
            let name_part = line.substring_char(0, i);
            let value_part = line.substring_char(i + 1, n);
            proof {
                assert(value_part@ =~= line@.skip(i + 1));
            }
            let name = ascii_lower(trim_str(name_part).as_str());
            let value = trim_str(value_part);
            Some((name, value))
        },
    }
}

} // verus!
