use vstd::prelude::*;

use crate::error::AppError;
use crate::json::{distinct_keys, hex4, hex_val, is_json_ws,
    lemma_objects_to_profiles_cons, lemma_objects_to_profiles_head_none,
    lemma_objects_to_profiles_head_none_cons, lookup_from, member_views, object_to_profile,
    objects_to_profiles, parse_array_rest, parse_escape, parse_member, parse_members_rest,
    parse_object, parse_profiles, parse_string_body, parse_unicode_escape, skip_ws};
use crate::profile::{GitUserProfile, profile_views};
use crate::text::{str_eq, str_to_chars};

verus! {

broadcast use crate::profile::lemma_profile_views_len, crate::profile::lemma_profile_views_index,
    crate::json::lemma_member_views_len, crate::json::lemma_member_views_index;

/// Relies on `char::from_u32` of core: a `u32` converts to the character with
/// that value exactly when it is a Unicode scalar value.
pub assume_specification[ char::from_u32 ](u: u32) -> (r: Option<char>)
    ensures
        r is Some <==> vstd::utf8::is_scalar(u),
        r matches Some(c) ==> c as u32 == u,
;

/// Whether the character is JSON whitespace.
fn is_ws_char(c: char) -> (r: bool)
    ensures
        r == is_json_ws(c),
{
    c == ' ' || c == '\t' || c == '\n' || c == '\r'
}

/// The first position at or after `i` without JSON whitespace.
fn skip_ws_exec(s: &Vec<char>, i: usize) -> (r: usize)
    requires
        i <= s@.len(),
    ensures
        r as int == skip_ws(s@, i as int),
        i <= r <= s@.len(),
{
    let n = s.len();
    let mut j = i;
    while j < n && is_ws_char(s[j])
        invariant
            i <= j <= n,
            n == s@.len(),
            skip_ws(s@, i as int) == skip_ws(s@, j as int),
        decreases n - j,
    {
        j = j + 1;
    }
    j
}

/// The value of a hexadecimal digit character, if it is one.
fn hex_val_exec(c: char) -> (r: Option<u32>)
    ensures
        match r {
            Some(v) => hex_val(c) == v as int && v < 16,
            None => hex_val(c) < 0,
        },
{
    let u = c as u32;
    if 0x30 <= u && u <= 0x39 {
        Some(u - 0x30)
    } else if 0x41 <= u && u <= 0x46 {
        Some(u - 0x41 + 10)
    } else if 0x61 <= u && u <= 0x66 {
        Some(u - 0x61 + 10)
    } else {
        None
    }
}

/// The value of the four hexadecimal digits at `i`, if they are there.
fn hex4_exec(s: &Vec<char>, i: usize) -> (r: Option<u32>)
    requires
        i <= s@.len(),
    ensures
        match r {
            Some(v) => hex4(s@, i as int) == v as int && v < 0x10000,
            None => hex4(s@, i as int) < 0,
        },
{
    let n = s.len();
    if n - i < 4 {
        return None;
    }
    let d0 = hex_val_exec(s[i]);
    let d1 = hex_val_exec(s[i + 1]);
    let d2 = hex_val_exec(s[i + 2]);
    let d3 = hex_val_exec(s[i + 3]);
    match (d0, d1, d2, d3) {
        (Some(v0), Some(v1), Some(v2), Some(v3)) => Some(v0 * 4096 + v1 * 256 + v2 * 16 + v3),
        _ => None,
    }
}

/// A `\u` escape read at `i`, the position of its first hex digit.
fn parse_unicode_escape_exec(s: &Vec<char>, i: usize) -> (r: Option<(char, usize)>)
    requires
        i <= s@.len(),
    ensures
        match r {
            Some((c, j)) => parse_unicode_escape(s@, i as int) == Some((c, j as int)) && i < j
                <= s@.len(),
            None => parse_unicode_escape(s@, i as int) is None,
        },
{
    let n = s.len();
    let v = match hex4_exec(s, i) {
        None => {
            return None;
        },
        Some(v) => v,
    };
    proof {
        assert(i + 4 <= n);
    }
    if 0xD800 <= v && v < 0xDC00 {
        if n - i < 6 || !(s[i + 4] == '\\' && s[i + 5] == 'u') {
            return None;
        }
        let w = match hex4_exec(s, i + 6) {
            None => {
                return None;
            },
            Some(w) => w,
        };
        if !(0xDC00 <= w && w < 0xE000) {
            return None;
        }
        let scalar: u32 = 0x10000 + (v - 0xD800) * 0x400 + (w - 0xDC00);
        proof {
            assert(0x10000 <= scalar <= 0x10FFFF);
            assert(vstd::utf8::is_scalar(scalar));
        }
        match char::from_u32(scalar) {
            Some(c) => {
                proof {
                    vstd::utf8::char_u32_cast(c, scalar);
                }
                Some((c, i + 10))
            },
            None => {
                // unreachable: the value is a scalar
                None
            },
        }
    } else if 0xDC00 <= v && v < 0xE000 {
        None
    } else {
        proof {
            assert(vstd::utf8::is_scalar(v));
        }
        match char::from_u32(v) {
            Some(c) => {
                proof {
                    vstd::utf8::char_u32_cast(c, v);
                }
                Some((c, i + 4))
            },
            None => None,
        }
    }
}

/// An escape read at `i`, the position after the backslash.
fn parse_escape_exec(s: &Vec<char>, i: usize) -> (r: Option<(char, usize)>)
    requires
        i <= s@.len(),
    ensures
        match r {
            Some((c, j)) => parse_escape(s@, i as int) == Some((c, j as int)) && i < j <= s@.len(),
            None => parse_escape(s@, i as int) is None,
        },
{
    let n = s.len();
    if i >= n {
        return None;
    }
    let c = s[i];
    if c == '"' {
        Some(('"', i + 1))
    } else if c == '\\' {
        Some(('\\', i + 1))
    } else if c == '/' {
        Some(('/', i + 1))
    } else if c == 'b' {
        Some(('\u{8}', i + 1))
    } else if c == 'f' {
        Some(('\u{c}', i + 1))
    } else if c == 'n' {
        Some(('\n', i + 1))
    } else if c == 'r' {
        Some(('\r', i + 1))
    } else if c == 't' {
        Some(('\t', i + 1))
    } else if c == 'u' {
        parse_unicode_escape_exec(s, i + 1)
    } else {
        None
    }
}

/// A string body read at `start`, the position after the opening quote.
fn parse_string_body_exec(s: &Vec<char>, start: usize) -> (r: Option<(String, usize)>)
    requires
        start <= s@.len(),
    ensures
        match r {
            Some((v, j)) => parse_string_body(s@, start as int) == Some((v@, j as int)) && start
                < j <= s@.len(),
            None => parse_string_body(s@, start as int) is None,
        },
{
    let n = s.len();
    let mut i = start;
    let mut acc = String::new();
    proof {
        match parse_string_body(s@, start as int) {
            Some((rest, k)) => {
                assert(Seq::<char>::empty() + rest =~= rest);
            },
            None => {},
        }
    }
    loop
        invariant
            start <= i <= n,
            n == s@.len(),
            parse_string_body(s@, start as int) == (match parse_string_body(s@, i as int) {
                None => None,
                Some((rest, k)) => Some((acc@ + rest, k)),
            }),
        decreases n - i,
    {
        if i >= n {
            return None;
        }
        let c = s[i];
        if c == '"' {
            proof {
                assert(parse_string_body(s@, i as int) == Some((Seq::<char>::empty(), i + 1)));
                assert(acc@ + Seq::<char>::empty() =~= acc@);
            }
            return Some((acc, i + 1));
        } else if c == '\\' {
            match parse_escape_exec(s, i + 1) {
                None => {
                    return None;
                },
                Some((c2, j)) => {
                    let ghost acc0 = acc@;
                    acc.push(c2);
                    proof {
                        match parse_string_body(s@, j as int) {
                            None => {},
                            Some((rest, k)) => {
                                assert(parse_string_body(s@, i as int) == Some(
                                    (seq![c2] + rest, k),
                                ));
                                assert(acc0.push(c2) =~= acc0 + seq![c2]);
                                assert(acc0 + (seq![c2] + rest) =~= (acc0 + seq![c2]) + rest);
                            },
                        }
                    }
                    i = j;
                },
            }
        } else if (c as u32) < 0x20 {
            return None;
        } else {
            let ghost acc0 = acc@;
            acc.push(c);
            proof {
                match parse_string_body(s@, i as int + 1) {
                    None => {},
                    Some((rest, k)) => {
                        assert(parse_string_body(s@, i as int) == Some((seq![c] + rest, k)));
                        assert(acc0.push(c) =~= acc0 + seq![c]);
                        assert(acc0 + (seq![c] + rest) =~= (acc0 + seq![c]) + rest);
                    },
                }
            }
            i = i + 1;
        }
    }
}

/// One `"key": "value"` member read at `i`, the position of the key's
/// opening quote.
fn parse_member_exec(s: &Vec<char>, i: usize) -> (r: Option<((String, String), usize)>)
    requires
        i <= s@.len(),
    ensures
        match r {
            Some((kv, e)) => parse_member(s@, i as int) == Some(((kv.0@, kv.1@), e as int)) && i
                < e <= s@.len(),
            None => parse_member(s@, i as int) is None,
        },
{
    let n = s.len();
    if i >= n || s[i] != '"' {
        return None;
    }
    let (key, j) = match parse_string_body_exec(s, i + 1) {
        None => {
            return None;
        },
        Some(kj) => kj,
    };
    let k = skip_ws_exec(s, j);
    if k >= n || s[k] != ':' {
        return None;
    }
    let m = skip_ws_exec(s, k + 1);
    if m >= n || s[m] != '"' {
        return None;
    }
    match parse_string_body_exec(s, m + 1) {
        None => None,
        Some((value, e)) => Some(((key, value), e)),
    }
}

/// An object read at `i`, the position of its opening brace: its members in
/// written order and the position after the closing brace.
fn parse_object_exec(s: &Vec<char>, i: usize) -> (r: Option<(Vec<(String, String)>, usize)>)
    requires
        i <= s@.len(),
    ensures
        match r {
            Some((ms, f)) => parse_object(s@, i as int) == Some((member_views(ms@), f as int)) && i
                < f <= s@.len(),
            None => parse_object(s@, i as int) is None,
        },
{
    let n = s.len();
    if i >= n || s[i] != '{' {
        return None;
    }
    let j = skip_ws_exec(s, i + 1);
    let mut ms: Vec<(String, String)> = Vec::new();
    if j < n && s[j] == '}' {
        proof {
            assert(member_views(ms@) =~= Seq::<(Seq<char>, Seq<char>)>::empty());
        }
        return Some((ms, j + 1));
    }
    let (kv, e) = match parse_member_exec(s, j) {
        None => {
            return None;
        },
        Some(r0) => r0,
    };
    let ghost kv_view = (kv.0@, kv.1@);
    ms.push(kv);
    let mut cur = e;
    proof {
        assert(member_views(ms@) =~= seq![kv_view]);
    }
    loop
        invariant
            i < cur <= n,
            n == s@.len(),
            ms@.len() > 0,
            parse_object(s@, i as int) == (match parse_members_rest(s@, cur as int) {
                None => None,
                Some((rest, f)) => Some((member_views(ms@) + rest, f)),
            }),
        decreases n - cur,
    {
        let j2 = skip_ws_exec(s, cur);
        if j2 < n && s[j2] == '}' {
            proof {
                assert(parse_members_rest(s@, cur as int) == Some(
                    (Seq::<(Seq<char>, Seq<char>)>::empty(), j2 + 1),
                ));
                assert(member_views(ms@) + Seq::<(Seq<char>, Seq<char>)>::empty() =~= member_views(
                    ms@,
                ));
            }
            return Some((ms, j2 + 1));
        }
        if !(j2 < n && s[j2] == ',') {
            return None;
        }
        let k2 = skip_ws_exec(s, j2 + 1);
        let (kv2, e2) = match parse_member_exec(s, k2) {
            None => {
                return None;
            },
            Some(r2) => r2,
        };
        let ghost kv2_view = (kv2.0@, kv2.1@);
        let ghost ms0 = ms@;
        ms.push(kv2);
        proof {
            assert(member_views(ms@) =~= member_views(ms0) + seq![kv2_view]);
            match parse_members_rest(s@, e2 as int) {
                None => {},
                Some((rest2, f2)) => {
                    assert(parse_members_rest(s@, cur as int) == Some(
                        (seq![kv2_view] + rest2, f2),
                    ));
                    assert(member_views(ms0) + (seq![kv2_view] + rest2) =~= (member_views(ms0)
                        + seq![kv2_view]) + rest2);
                },
            }
        }
        cur = e2;
    }
}

/// The value stored under the key, if any, looking from position `i` on.
fn lookup_exec(ms: &Vec<(String, String)>, key: &str, i: usize) -> (r: Option<String>)
    requires
        i <= ms@.len(),
    ensures
        match r {
            Some(v) => lookup_from(member_views(ms@), key@, i as int) == Some(v@),
            None => lookup_from(member_views(ms@), key@, i as int) is None,
        },
    decreases ms@.len() - i,
{
    if i >= ms.len() {
        return None;
    }
    if str_eq(ms[i].0.as_str(), key) {
        Some(ms[i].1.clone())
    } else {
        lookup_exec(ms, key, i + 1)
    }
}

/// The profile an object's members stand for, if they are exactly the three
/// known keys, each once, in any order.
fn object_to_profile_exec(ms: &Vec<(String, String)>) -> (r: Option<GitUserProfile>)
    ensures
        match r {
            Some(p) => object_to_profile(member_views(ms@)) == Some(p@),
            None => object_to_profile(member_views(ms@)) is None,
        },
{
    let ghost views = member_views(ms@);
    let username = match lookup_exec(ms, "git_username", 0) {
        None => {
            return None;
        },
        Some(v) => v,
    };
    let email = match lookup_exec(ms, "git_email", 0) {
        None => {
            return None;
        },
        Some(v) => v,
    };
    let alias = match lookup_exec(ms, "user_alias", 0) {
        None => {
            return None;
        },
        Some(v) => v,
    };
    if ms.len() != 3 {
        return None;
    }
    if str_eq(ms[0].0.as_str(), ms[1].0.as_str()) || str_eq(ms[0].0.as_str(), ms[2].0.as_str())
        || str_eq(ms[1].0.as_str(), ms[2].0.as_str()) {
        proof {
            assert(views[0].0 == ms@[0].0@);
            assert(views[1].0 == ms@[1].0@);
            assert(views[2].0 == ms@[2].0@);
            assert(!distinct_keys(views));
        }
        return None;
    }
    proof {
        assert forall|a: int, b: int| 0 <= a < b < views.len() implies (#[trigger] views[a]).0 != (
        #[trigger] views[b]).0 by {
            assert(views[0].0 == ms@[0].0@);
            assert(views[1].0 == ms@[1].0@);
            assert(views[2].0 == ms@[2].0@);
        }
    }
    Some(
        GitUserProfile { git_username: username, git_email: email, user_alias: alias },
    )
}

/// The collection the text stands for, or a parse error.  The text must hold
/// one JSON array of profile objects and nothing but whitespace around it.
pub fn from_json_str(s: &str) -> (r: Result<Vec<GitUserProfile>, AppError>)
    ensures
        match parse_profiles(s@) {
            Some(views) => r matches Ok(v) && profile_views(v@) == views,
            None => r matches Err(e) && e is Parse,
        },
{
    let chars = str_to_chars(s);
    let n = chars.len();
    let i = skip_ws_exec(&chars, 0);
    if i >= n || chars[i] != '[' {
        return Err(AppError::Parse(String::from_str("expected a JSON array")));
    }
    let j = skip_ws_exec(&chars, i + 1);
    if j < n && chars[j] == ']' {
        if skip_ws_exec(&chars, j + 1) == n {
            let out: Vec<GitUserProfile> = Vec::new();
            proof {
                assert(profile_views(out@) =~= Seq::<crate::profile::ProfileData>::empty());
            }
            return Ok(out);
        } else {
            return Err(AppError::Parse(String::from_str("text after the array")));
        }
    }
    let (ms, e) = match parse_object_exec(&chars, j) {
        None => {
            return Err(AppError::Parse(String::from_str("expected a profile object")));
        },
        Some(r0) => r0,
    };
    let mut out: Vec<GitUserProfile> = Vec::new();
    let p = match object_to_profile_exec(&ms) {
        None => {
            proof {
                lemma_objects_to_profiles_head_none(member_views(ms@), parse_array_rest(
                    s@,
                    e as int,
                ));
            }
            return Err(AppError::Parse(String::from_str("an object is not a profile")));
        },
        Some(p) => p,
    };
    let ghost p_view = p@;
    out.push(p);
    let mut cur = e;
    proof {
        assert(profile_views(out@) =~= seq![p_view]);
        match parse_array_rest(s@, e as int) {
            None => {},
            Some((rest, f)) => {
                lemma_objects_to_profiles_cons(member_views(ms@), p_view, rest);
                match objects_to_profiles(rest) {
                    None => {},
                    Some(ps) => {
                        assert(seq![p_view] + ps =~= profile_views(out@) + ps);
                    },
                }
            },
        }
    }
    loop
        invariant
            0 < cur <= n,
            n == s@.len(),
            chars@ == s@,
            parse_profiles(s@) == (match parse_array_rest(s@, cur as int) {
                None => None,
                Some((rest, f)) => {
                    if skip_ws(s@, f) == s@.len() {
                        match objects_to_profiles(rest) {
                            None => None,
                            Some(ps) => Some(profile_views(out@) + ps),
                        }
                    } else {
                        None
                    }
                },
            }),
        decreases n - cur,
    {
        let j2 = skip_ws_exec(&chars, cur);
        if j2 < n && chars[j2] == ']' {
            proof {
                assert(parse_array_rest(s@, cur as int) == Some(
                    (Seq::<Seq<(Seq<char>, Seq<char>)>>::empty(), j2 + 1),
                ));
            }
            if skip_ws_exec(&chars, j2 + 1) == n {
                proof {
                    assert(objects_to_profiles(Seq::<Seq<(Seq<char>, Seq<char>)>>::empty())
                        == Some(Seq::<crate::profile::ProfileData>::empty()));
                    assert(profile_views(out@) + Seq::<crate::profile::ProfileData>::empty()
                        =~= profile_views(out@));
                }
                return Ok(out);
            } else {
                return Err(AppError::Parse(String::from_str("text after the array")));
            }
        }
        if !(j2 < n && chars[j2] == ',') {
            return Err(AppError::Parse(String::from_str("expected a comma or the array's end")));
        }
        let k2 = skip_ws_exec(&chars, j2 + 1);
        let (ms2, e2) = match parse_object_exec(&chars, k2) {
            None => {
                return Err(AppError::Parse(String::from_str("expected a profile object")));
            },
            Some(r2) => r2,
        };
        let p2 = match object_to_profile_exec(&ms2) {
            None => {
                proof {
                    match parse_array_rest(s@, e2 as int) {
                        None => {},
                        Some((rest2, f2)) => {
                            lemma_objects_to_profiles_head_none_cons(member_views(ms2@), rest2);
                        },
                    }
                }
                return Err(AppError::Parse(String::from_str("an object is not a profile")));
            },
            Some(p2) => p2,
        };
        let ghost p2_view = p2@;
        let ghost out0 = out@;
        out.push(p2);
        proof {
            assert(profile_views(out@) =~= profile_views(out0) + seq![p2_view]);
            match parse_array_rest(s@, e2 as int) {
                None => {},
                Some((rest2, f2)) => {
                    assert(parse_array_rest(s@, cur as int) == Some(
                        (seq![member_views(ms2@)] + rest2, f2),
                    ));
                    lemma_objects_to_profiles_cons(member_views(ms2@), p2_view, rest2);
                    match objects_to_profiles(rest2) {
                        None => {},
                        Some(ps2) => {
                            assert(profile_views(out0) + (seq![p2_view] + ps2) =~= (profile_views(
                                out0,
                            ) + seq![p2_view]) + ps2);
                        },
                    }
                },
            }
        }
        cur = e2;
    }
}

} // verus!
