use vstd::prelude::*;

use crate::profile::ProfileData;

verus! {

// ---------------------------------------------------------------------------
// The stored file format, written out.
//
// A collection is persisted as a pretty-printed JSON array of objects with
// the three members `git_username`, `git_email` and `user_alias`, indented by
// two spaces per level.  The functions here define that text exactly.
// ---------------------------------------------------------------------------
/// The lowercase hexadecimal digit for a value below sixteen.
pub open spec fn hex_digit(d: int) -> char {
    if d == 0 {
        '0'
    } else if d == 1 {
        '1'
    } else if d == 2 {
        '2'
    } else if d == 3 {
        '3'
    } else if d == 4 {
        '4'
    } else if d == 5 {
        '5'
    } else if d == 6 {
        '6'
    } else if d == 7 {
        '7'
    } else if d == 8 {
        '8'
    } else if d == 9 {
        '9'
    } else if d == 10 {
        'a'
    } else if d == 11 {
        'b'
    } else if d == 12 {
        'c'
    } else if d == 13 {
        'd'
    } else if d == 14 {
        'e'
    } else {
        'f'
    }
}

/// How one character appears inside a JSON string: quote, backslash and the
/// five short escapes are escaped by name, any other control character as a
/// `\u00` sequence, and everything else stands as itself.
pub open spec fn escape_char(c: char) -> Seq<char> {
    if c == '"' {
        seq!['\\', '"']
    } else if c == '\\' {
        seq!['\\', '\\']
    } else if c == '\u{8}' {
        seq!['\\', 'b']
    } else if c == '\t' {
        seq!['\\', 't']
    } else if c == '\n' {
        seq!['\\', 'n']
    } else if c == '\u{c}' {
        seq!['\\', 'f']
    } else if c == '\r' {
        seq!['\\', 'r']
    } else if (c as u32) < 0x20 {
        seq!['\\', 'u', '0', '0', hex_digit((c as u32) as int / 16), hex_digit((c as u32) as int % 16)]
    } else {
        seq![c]
    }
}

/// The body of a JSON string: every character escaped as [`escape_char`].
pub open spec fn escape_string(s: Seq<char>) -> Seq<char>
    decreases s.len(),
{
    if s.len() == 0 {
        Seq::empty()
    } else {
        escape_char(s[0]) + escape_string(s.drop_first())
    }
}

/// A JSON string: the escaped body between double quotes.
pub open spec fn quoted(s: Seq<char>) -> Seq<char> {
    seq!['"'] + escape_string(s) + seq!['"']
}

/// One profile as a JSON object, indented for one level of nesting.
pub open spec fn profile_object(p: ProfileData) -> Seq<char> {
    "{\n    \"git_username\": "@ + quoted(p.username) + ",\n    \"git_email\": "@ + quoted(p.email)
        + ",\n    \"user_alias\": "@ + quoted(p.alias) + "\n  }"@
}

/// The array elements, separated by a comma, a line break and the element
/// indent.
pub open spec fn json_items(users: Seq<ProfileData>) -> Seq<char>
    decreases users.len(),
{
    if users.len() == 0 {
        Seq::empty()
    } else if users.len() == 1 {
        profile_object(users[0])
    } else {
        json_items(users.drop_last()) + ",\n  "@ + profile_object(users.last())
    }
}

/// The whole stored file: an empty array as a bare bracket pair, otherwise
/// one element per line group.
pub open spec fn json_of(users: Seq<ProfileData>) -> Seq<char> {
    if users.len() == 0 {
        "[]"@
    } else {
        "[\n  "@ + json_items(users) + "\n]"@
    }
}

// ---------------------------------------------------------------------------
// The stored file format, read back.
//
// The reader accepts standard JSON for the shape above: whitespace may stand
// between tokens, the three members of an object may come in any order, and
// a string may use any JSON escape, including `\u` sequences and surrogate
// pairs.  An object with a member missing, repeated or unknown is refused, as
// is any value that is not a string.
// ---------------------------------------------------------------------------
/// The JSON whitespace characters.
pub open spec fn is_json_ws(c: char) -> bool {
    c == ' ' || c == '\t' || c == '\n' || c == '\r'
}

/// The first position at or after `i` that does not hold JSON whitespace.
pub open spec fn skip_ws(s: Seq<char>, i: int) -> int
    decreases s.len() - i,
{
    if 0 <= i && i < s.len() && is_json_ws(s[i]) {
        skip_ws(s, i + 1)
    } else {
        i
    }
}

/// The value of a hexadecimal digit character, or minus one.
pub open spec fn hex_val(c: char) -> int {
    let u = (c as u32) as int;
    if 0x30 <= u && u <= 0x39 {
        u - 0x30
    } else if 0x41 <= u && u <= 0x46 {
        u - 0x41 + 10
    } else if 0x61 <= u && u <= 0x66 {
        u - 0x61 + 10
    } else {
        -1
    }
}

/// The value of the four hexadecimal digits at `i`, or minus one.
pub open spec fn hex4(s: Seq<char>, i: int) -> int {
    if 0 <= i && i + 4 <= s.len() && hex_val(s[i]) >= 0 && hex_val(s[i + 1]) >= 0 && hex_val(
        s[i + 2],
    ) >= 0 && hex_val(s[i + 3]) >= 0 {
        hex_val(s[i]) * 4096 + hex_val(s[i + 1]) * 256 + hex_val(s[i + 2]) * 16 + hex_val(s[i + 3])
    } else {
        -1
    }
}

/// A `\u` escape read at `i` (the first hex digit): either one scalar value,
/// or a surrogate pair combined into one character.  Yields the character and
/// the position after the escape.
pub open spec fn parse_unicode_escape(s: Seq<char>, i: int) -> Option<(char, int)> {
    let v = hex4(s, i);
    if v < 0 {
        None
    } else if 0xD800 <= v && v < 0xDC00 {
        if i + 6 <= s.len() && s[i + 4] == '\\' && s[i + 5] == 'u' {
            let w = hex4(s, i + 6);
            if 0xDC00 <= w && w < 0xE000 {
                let scalar = 0x10000 + (v - 0xD800) * 0x400 + (w - 0xDC00);
                Some((((scalar as u32) as char), i + 10))
            } else {
                None
            }
        } else {
            None
        }
    } else if 0xDC00 <= v && v < 0xE000 {
        None
    } else {
        Some((((v as u32) as char), i + 4))
    }
}

/// An escape read at `i`, the position after the backslash: the character it
/// stands for and the position after the escape.
pub open spec fn parse_escape(s: Seq<char>, i: int) -> Option<(char, int)> {
    if 0 <= i && i < s.len() {
        let c = s[i];
        if c == '"' {
            Some(('"', i + 1))
        } else if c == '\\' {
            Some(('\\', i + 1))
        } else if c == '/' {
            Some(('/', i + 1))
        } else if c == 'b' {
            Some(('\u{8}', i + 1))
        } else if c == 'f' {
            Some(('\u{c}', i + 1))
        } else if c == 'n' {
            Some(('\n', i + 1))
        } else if c == 'r' {
            Some(('\r', i + 1))
        } else if c == 't' {
            Some(('\t', i + 1))
        } else if c == 'u' {
            parse_unicode_escape(s, i + 1)
        } else {
            None
        }
    } else {
        None
    }
}

/// A string body read at `i`, the position after the opening quote: the
/// characters up to the closing quote, unescaped, and the position after that
/// quote.  A bare control character is refused.
pub open spec fn parse_string_body(s: Seq<char>, i: int) -> Option<(Seq<char>, int)>
    decreases s.len() - i,
{
    if 0 <= i && i < s.len() {
        let c = s[i];
        if c == '"' {
            Some((Seq::empty(), i + 1))
        } else if c == '\\' {
            match parse_escape(s, i + 1) {
                None => None,
                Some((c2, j)) => if i + 1 < j && j <= s.len() {
                    match parse_string_body(s, j) {
                        None => None,
                        Some((rest, k)) => Some((seq![c2] + rest, k)),
                    }
                } else {
                    None
                },
            }
        } else if (c as u32) < 0x20 {
            None
        } else {
            match parse_string_body(s, i + 1) {
                None => None,
                Some((rest, k)) => Some((seq![c] + rest, k)),
            }
        }
    } else {
        None
    }
}

/// One `"key": "value"` member read at `i`, the position of the key's opening
/// quote: the pair and the position after the value's closing quote.
pub open spec fn parse_member(s: Seq<char>, i: int) -> Option<((Seq<char>, Seq<char>), int)> {
    if 0 <= i && i < s.len() && s[i] == '"' {
        match parse_string_body(s, i + 1) {
            None => None,
            Some((key, j)) => {
                let k = skip_ws(s, j);
                if 0 <= k && k < s.len() && s[k] == ':' {
                    let m = skip_ws(s, k + 1);
                    if 0 <= m && m < s.len() && s[m] == '"' {
                        match parse_string_body(s, m + 1) {
                            None => None,
                            Some((value, e)) => Some(((key, value), e)),
                        }
                    } else {
                        None
                    }
                } else {
                    None
                }
            },
        }
    } else {
        None
    }
}

/// The members after the first one, read at `i`, the position after a parsed
/// member: a comma before each further member, then the closing brace.
/// Yields the members and the position after the brace.
pub open spec fn parse_members_rest(s: Seq<char>, i: int) -> Option<
    (Seq<(Seq<char>, Seq<char>)>, int),
>
    decreases s.len() - i,
{
    let j = skip_ws(s, i);
    if 0 <= j && j < s.len() && s[j] == '}' {
        Some((Seq::empty(), j + 1))
    } else if 0 <= j && j < s.len() && s[j] == ',' {
        let k = skip_ws(s, j + 1);
        match parse_member(s, k) {
            None => None,
            Some((kv, e)) => if i < e && e <= s.len() {
                match parse_members_rest(s, e) {
                    None => None,
                    Some((rest, f)) => Some((seq![kv] + rest, f)),
                }
            } else {
                None
            },
        }
    } else {
        None
    }
}

/// An object read at `i`, the position of its opening brace: its members in
/// written order and the position after the closing brace.
pub open spec fn parse_object(s: Seq<char>, i: int) -> Option<(Seq<(Seq<char>, Seq<char>)>, int)> {
    if 0 <= i && i < s.len() && s[i] == '{' {
        let j = skip_ws(s, i + 1);
        if 0 <= j && j < s.len() && s[j] == '}' {
            Some((Seq::empty(), j + 1))
        } else {
            match parse_member(s, j) {
                None => None,
                Some((kv, e)) => match parse_members_rest(s, e) {
                    None => None,
                    Some((rest, f)) => Some((seq![kv] + rest, f)),
                },
            }
        }
    } else {
        None
    }
}

/// The array elements after the first one, read at `i`, the position after a
/// parsed object: a comma before each further object, then the closing
/// bracket.  Yields the objects and the position after the bracket.
pub open spec fn parse_array_rest(s: Seq<char>, i: int) -> Option<
    (Seq<Seq<(Seq<char>, Seq<char>)>>, int),
>
    decreases s.len() - i,
{
    let j = skip_ws(s, i);
    if 0 <= j && j < s.len() && s[j] == ']' {
        Some((Seq::empty(), j + 1))
    } else if 0 <= j && j < s.len() && s[j] == ',' {
        let k = skip_ws(s, j + 1);
        match parse_object(s, k) {
            None => None,
            Some((obj, e)) => if i < e && e <= s.len() {
                match parse_array_rest(s, e) {
                    None => None,
                    Some((rest, f)) => Some((seq![obj] + rest, f)),
                }
            } else {
                None
            },
        }
    } else {
        None
    }
}

/// The member pairs as their mathematical content, element by element.
pub open spec fn member_views(ms: Seq<(String, String)>) -> Seq<(Seq<char>, Seq<char>)> {
    ms.map_values(|m: (String, String)| (m.0@, m.1@))
}

/// The content sequence is as long as the member sequence.
pub broadcast proof fn lemma_member_views_len(ms: Seq<(String, String)>)
    ensures
        #[trigger] member_views(ms).len() == ms.len(),
{
}

/// The content sequence holds, position by position, the members' content.
pub broadcast proof fn lemma_member_views_index(ms: Seq<(String, String)>, i: int)
    requires
        0 <= i < ms.len(),
    ensures
        #[trigger] member_views(ms)[i] == (ms[i].0@, ms[i].1@),
{
}

/// The value stored under the key, if any, looking from position `i` on.
pub open spec fn lookup_from(
    members: Seq<(Seq<char>, Seq<char>)>,
    key: Seq<char>,
    i: int,
) -> Option<Seq<char>>
    decreases members.len() - i,
{
    if 0 <= i && i < members.len() {
        if members[i].0 == key {
            Some(members[i].1)
        } else {
            lookup_from(members, key, i + 1)
        }
    } else {
        None
    }
}

/// No two members share a key.
pub open spec fn distinct_keys(members: Seq<(Seq<char>, Seq<char>)>) -> bool {
    forall|i: int, j: int| 0 <= i < j < members.len() ==> (#[trigger] members[i]).0 != (
    #[trigger] members[j]).0
}

/// The profile an object stands for: it must hold exactly the three known
/// members, each once, in any order.
pub open spec fn object_to_profile(members: Seq<(Seq<char>, Seq<char>)>) -> Option<ProfileData> {
    match (
        lookup_from(members, "git_username"@, 0),
        lookup_from(members, "git_email"@, 0),
        lookup_from(members, "user_alias"@, 0),
    ) {
        (Some(u), Some(e), Some(a)) => if members.len() == 3 && distinct_keys(members) {
            Some(ProfileData { username: u, email: e, alias: a })
        } else {
            None
        },
        _ => None,
    }
}

/// The profiles a list of parsed objects stands for, each object converted by
/// [`object_to_profile`]; one refused object refuses the list.
pub open spec fn objects_to_profiles(objs: Seq<Seq<(Seq<char>, Seq<char>)>>) -> Option<
    Seq<ProfileData>,
>
    decreases objs.len(),
{
    if objs.len() == 0 {
        Some(Seq::empty())
    } else {
        match (object_to_profile(objs[0]), objects_to_profiles(objs.drop_first())) {
            (Some(p), Some(rest)) => Some(seq![p] + rest),
            _ => None,
        }
    }
}

/// The collection the whole text stands for: one JSON array of profile
/// objects and nothing but whitespace around it, or nothing.
pub open spec fn parse_profiles(s: Seq<char>) -> Option<Seq<ProfileData>> {
    let i = skip_ws(s, 0);
    if 0 <= i && i < s.len() && s[i] == '[' {
        let j = skip_ws(s, i + 1);
        if 0 <= j && j < s.len() && s[j] == ']' {
            if skip_ws(s, j + 1) == s.len() {
                Some(Seq::empty())
            } else {
                None
            }
        } else {
            match parse_object(s, j) {
                None => None,
                Some((obj, e)) => match parse_array_rest(s, e) {
                    None => None,
                    Some((rest, f)) => {
                        if skip_ws(s, f) == s.len() {
                            objects_to_profiles(seq![obj] + rest)
                        } else {
                            None
                        }
                    },
                },
            }
        }
    } else {
        None
    }
}

/// A list of objects whose first does not stand for a profile stands for no
/// collection, whatever follows it.
pub proof fn lemma_objects_to_profiles_head_none_cons(
    obj: Seq<(Seq<char>, Seq<char>)>,
    rest: Seq<Seq<(Seq<char>, Seq<char>)>>,
)
    requires
        object_to_profile(obj) is None,
    ensures
        objects_to_profiles(seq![obj] + rest) is None,
{
    let objs = seq![obj] + rest;
    assert(objs.len() > 0);
    assert(objs[0] == obj);
}

/// Same, stated over the optional remainder of an array parse.
pub proof fn lemma_objects_to_profiles_head_none(
    obj: Seq<(Seq<char>, Seq<char>)>,
    tail: Option<(Seq<Seq<(Seq<char>, Seq<char>)>>, int)>,
)
    requires
        object_to_profile(obj) is None,
    ensures
        match tail {
            Some((rest, f)) => objects_to_profiles(seq![obj] + rest) is None,
            None => true,
        },
{
    match tail {
        Some((rest, f)) => {
            lemma_objects_to_profiles_head_none_cons(obj, rest);
        },
        None => {},
    }
}

/// Reading a list of objects reads its head, then the rest.
pub proof fn lemma_objects_to_profiles_cons(
    obj: Seq<(Seq<char>, Seq<char>)>,
    p: ProfileData,
    rest: Seq<Seq<(Seq<char>, Seq<char>)>>,
)
    requires
        object_to_profile(obj) == Some(p),
    ensures
        objects_to_profiles(seq![obj] + rest) == (match objects_to_profiles(rest) {
            None => None,
            Some(ps) => Some(seq![p] + ps),
        }),
{
    let objs = seq![obj] + rest;
    assert(objs.len() > 0);
    assert(objs[0] == obj);
    assert(objs.drop_first() =~= rest);
}

} // verus!
