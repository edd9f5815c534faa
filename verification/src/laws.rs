use vstd::prelude::*;

use crate::json::{distinct_keys, escape_char, escape_string, hex4, hex_digit, hex_val,
    is_json_ws, json_items, json_of, lemma_objects_to_profiles_cons, lookup_from,
    object_to_profile, objects_to_profiles, parse_array_rest, parse_escape, parse_member,
    parse_members_rest, parse_object, parse_profiles, parse_string_body, parse_unicode_escape,
    profile_object, quoted, skip_ws};
use crate::profile::ProfileData;
use crate::text::{is_space, spec_trim, trim_end, trim_start};

verus! {

/// The members of a profile's object, in the order the file writes them.
spec fn profile_members(p: ProfileData) -> Seq<(Seq<char>, Seq<char>)> {
    seq![("git_username"@, p.username), ("git_email"@, p.email), ("user_alias"@, p.alias)]
}

/// The text of one object member: the quoted key, a colon and a space, and
/// the quoted value.
spec fn member_text(key: Seq<char>, value: Seq<char>) -> Seq<char> {
    seq!['"'] + key + seq!['"', ':', ' '] + quoted(value)
}

/// The text of the array elements from position `k` on, each preceded by the
/// separator between elements.
spec fn items_mid(users: Seq<ProfileData>, k: int) -> Seq<char>
    decreases users.len() - k,
{
    if 0 <= k && k < users.len() {
        ",\n  "@ + profile_object(users[k]) + items_mid(users, k + 1)
    } else {
        Seq::empty()
    }
}

/// The member lists of the objects from position `k` on.
spec fn members_mid(users: Seq<ProfileData>, k: int) -> Seq<Seq<(Seq<char>, Seq<char>)>>
    decreases users.len() - k,
{
    if 0 <= k && k < users.len() {
        seq![profile_members(users[k])] + members_mid(users, k + 1)
    } else {
        Seq::empty()
    }
}

/// A prefix made of two parts splits into a prefix and a following slice.
proof fn lemma_prefix_split(s: Seq<char>, i: int, a: Seq<char>, b: Seq<char>)
    requires
        0 <= i,
        i + a.len() + b.len() <= s.len(),
        s.subrange(i, i + a.len() + b.len()) == a + b,
    ensures
        s.subrange(i, i + a.len()) == a,
        s.subrange(i + a.len(), i + a.len() + b.len()) == b,
{
    assert forall|k: int| 0 <= k < a.len() implies s[i + k] == a[k] by {
        assert(s.subrange(i, i + a.len() + b.len())[k] == s[i + k]);
        assert((a + b)[k] == a[k]);
        assert(s.subrange(i, i + a.len() + b.len())[k] == (a + b)[k]);
    }
    assert forall|k: int| 0 <= k < b.len() implies s[i + a.len() + k] == b[k] by {
        assert(s.subrange(i, i + a.len() + b.len())[a.len() + k] == s[i + (a.len() + k)]);
        assert((a + b)[a.len() + k] == b[k]);
        assert(s.subrange(i, i + a.len() + b.len())[a.len() + k] == (a + b)[a.len() + k]);
    }
    assert(s.subrange(i, i + a.len()) =~= a);
    assert(s.subrange(i + a.len(), i + a.len() + b.len()) =~= b);
}

/// Skipping whitespace from the start of a whitespace run ends right after it.
proof fn lemma_skip_ws_run(s: Seq<char>, i: int, j: int)
    requires
        0 <= i <= j <= s.len(),
        forall|k: int| i <= k < j ==> is_json_ws(#[trigger] s[k]),
        j < s.len(),
        !is_json_ws(s[j]),
    ensures
        skip_ws(s, i) == j,
    decreases j - i,
{
    if i < j {
        assert(is_json_ws(s[i]));
        lemma_skip_ws_run(s, i + 1, j);
    }
}

/// A hexadecimal digit character reads back as its value.
proof fn lemma_hex_digit_val(d: int)
    requires
        0 <= d < 16,
    ensures
        hex_val(hex_digit(d)) == d,
{
}

/// An escaped character's escape sequence, standing at `i`, reads back as
/// that character when reading starts after its backslash.
proof fn lemma_parse_escape_char(s: Seq<char>, i: int, c: char)
    requires
        0 <= i,
        i + escape_char(c).len() <= s.len(),
        s.subrange(i, i + escape_char(c).len()) == escape_char(c),
        escape_char(c).len() >= 2,
    ensures
        parse_escape(s, i + 1) == Some((c, i + escape_char(c).len())),
{
    let ec = escape_char(c);
    assert(forall|k: int| 0 <= k < ec.len() ==> s[i + k] == #[trigger] ec[k]) by {
        assert(forall|k: int|
            0 <= k < ec.len() ==> s.subrange(i, i + ec.len())[k] == #[trigger] ec[k]);
    }
    assert(s[i] == '\\');
    if c == '"' || c == '\\' || c == '\u{8}' || c == '\t' || c == '\n' || c == '\u{c}' || c
        == '\r' {
        assert(ec.len() == 2);
        assert(s[i + 1] == ec[1]);
    } else {
        assert((c as u32) < 0x20);
        assert(ec.len() == 6);
        assert(s[i + 1] == 'u');
        assert(s[i + 2] == '0');
        assert(s[i + 3] == '0');
        let u = (c as u32) as int;
        assert(s[i + 4] == hex_digit(u / 16));
        assert(s[i + 5] == hex_digit(u % 16));
        lemma_hex_digit_val(0);
        lemma_hex_digit_val(u / 16);
        lemma_hex_digit_val(u % 16);
        assert(hex_val('0') == 0);
        assert(hex4(s, i + 2) == hex_val(s[i + 2]) * 4096 + hex_val(s[i + 3]) * 256 + hex_val(
            s[i + 4],
        ) * 16 + hex_val(s[i + 5]));
        assert(hex4(s, i + 2) == u);
        let v = hex4(s, i + 2);
        assert(0 <= v < 0x20);
        assert(parse_unicode_escape(s, i + 2) == Some((((v as u32) as char), i + 6)));
        assert((v as u32) == c as u32);
        vstd::utf8::char_u32_cast(c, c as u32);
        assert(((v as u32) as char) == c);
    }
}

/// A string body, escaped and followed by a closing quote, reads back as
/// itself.
proof fn lemma_parse_string_body_prefix(s: Seq<char>, i: int, t: Seq<char>)
    requires
        0 <= i,
        i + escape_string(t).len() + 1 <= s.len(),
        s.subrange(i, i + escape_string(t).len() + 1) == escape_string(t) + seq!['"'],
    ensures
        parse_string_body(s, i) == Some((t, i + escape_string(t).len() + 1)),
    decreases t.len(),
{
    if t.len() == 0 {
        assert(escape_string(t) =~= Seq::<char>::empty());
        assert((escape_string(t) + seq!['"'])[0] == '"');
        assert(s[i] == '"') by {
            assert(s.subrange(i, i + 1)[0] == s[i]);
        }
    } else {
        let c = t[0];
        let rest = t.drop_first();
        let ec = escape_char(c);
        assert(escape_string(t) == ec + escape_string(rest));
        let whole = escape_string(t) + seq!['"'];
        assert(whole =~= ec + (escape_string(rest) + seq!['"']));
        lemma_prefix_split(s, i, ec, escape_string(rest) + seq!['"']);
        let i2 = i + ec.len();
        assert(forall|k: int| 0 <= k < ec.len() ==> s[i + k] == #[trigger] ec[k]) by {
            assert(forall|k: int|
                0 <= k < ec.len() ==> s.subrange(i, i + ec.len())[k] == #[trigger] ec[k]);
        }
        lemma_parse_string_body_prefix(s, i2, rest);
        assert(seq![c] + rest =~= t);
        if ec.len() == 1 {
            assert(ec[0] == c);
            assert(s[i] == c);
            assert(c != '"' && c != '\\' && !((c as u32) < 0x20));
            assert(parse_string_body(s, i) == Some((seq![c] + rest, i + escape_string(t).len() + 1)));
        } else {
            assert(s[i] == '\\');
            assert(c == '"' || c == '\\' || (c as u32) < 0x20);
            lemma_parse_escape_char(s, i, c);
            assert(parse_escape(s, i + 1) == Some((c, i2)));
            assert(i + 1 < i2 && i2 <= s.len());
            assert(parse_string_body(s, i) == Some((seq![c] + rest, i + escape_string(t).len() + 1)));
        }
    }
}

/// A quoted string reads back as itself, ending right after its closing
/// quote.
proof fn lemma_parse_quoted_prefix(s: Seq<char>, i: int, t: Seq<char>)
    requires
        0 <= i,
        i + quoted(t).len() <= s.len(),
        s.subrange(i, i + quoted(t).len()) == quoted(t),
    ensures
        s[i] == '"',
        parse_string_body(s, i + 1) == Some((t, i + quoted(t).len())),
{
    let q = quoted(t);
    assert(q =~= seq!['"'] + (escape_string(t) + seq!['"']));
    lemma_prefix_split(s, i, seq!['"'], escape_string(t) + seq!['"']);
    assert(s[i] == '"') by {
        assert(s.subrange(i, i + 1)[0] == s[i]);
    }
    lemma_parse_string_body_prefix(s, i + 1, t);
}

/// The characters of a prefix, one by one.
proof fn lemma_chars_of_prefix(s: Seq<char>, i: int, a: Seq<char>)
    requires
        0 <= i,
        i + a.len() <= s.len(),
        s.subrange(i, i + a.len()) == a,
    ensures
        forall|k: int| 0 <= k < a.len() ==> s[i + k] == #[trigger] a[k],
{
    assert forall|k: int| 0 <= k < a.len() implies s[i + k] == #[trigger] a[k] by {
        assert(s.subrange(i, i + a.len())[k] == s[i + k]);
    }
}

/// Text whose characters all stand for themselves escapes to itself.
proof fn lemma_escape_plain(t: Seq<char>)
    requires
        forall|k: int| 0 <= k < t.len() ==> escape_char(#[trigger] t[k]) == seq![t[k]],
    ensures
        escape_string(t) == t,
    decreases t.len(),
{
    if t.len() == 0 {
        assert(escape_string(t) =~= t);
    } else {
        lemma_escape_plain(t.drop_first());
        assert(escape_char(t[0]) == seq![t[0]]);
        assert(escape_string(t) =~= t) by {
            assert(escape_string(t) == seq![t[0]] + t.drop_first());
            assert(seq![t[0]] + t.drop_first() =~= t);
        }
    }
}

/// Text without quotes, backslashes or control characters escapes to itself.
proof fn lemma_escape_plain_chars(t: Seq<char>)
    requires
        forall|k: int|
            0 <= k < t.len() ==> (#[trigger] t[k]) != '"' && t[k] != '\\' && (t[k] as u32) >= 0x20,
    ensures
        escape_string(t) == t,
{
    assert forall|k: int| 0 <= k < t.len() implies escape_char(#[trigger] t[k]) == seq![t[k]] by {
        assert(t[k] != '"' && t[k] != '\\' && (t[k] as u32) >= 0x20);
    }
    lemma_escape_plain(t);
}

/// The three member keys escape to themselves, and their lengths differ.
proof fn lemma_keys_plain()
    ensures
        escape_string("git_username"@) == "git_username"@,
        escape_string("git_email"@) == "git_email"@,
        escape_string("user_alias"@) == "user_alias"@,
        "git_username"@.len() == 12,
        "git_email"@.len() == 9,
        "user_alias"@.len() == 10,
{
    reveal_strlit("git_username");
    reveal_strlit("git_email");
    reveal_strlit("user_alias");
    lemma_escape_plain_chars("git_username"@);
    lemma_escape_plain_chars("git_email"@);
    lemma_escape_plain_chars("user_alias"@);
}

/// One written member reads back as its key and value pair.
proof fn lemma_parse_member_prefix(s: Seq<char>, i: int, key: Seq<char>, value: Seq<char>)
    requires
        0 <= i,
        escape_string(key) == key,
        i + member_text(key, value).len() <= s.len(),
        s.subrange(i, i + member_text(key, value).len()) == member_text(key, value),
    ensures
        parse_member(s, i) == Some(((key, value), i + member_text(key, value).len())),
{
    let qk = quoted(key);
    let mid = seq![':', ' '];
    let qv = quoted(value);
    let mt = member_text(key, value);
    assert(qk =~= seq!['"'] + key + seq!['"']);
    assert(mt =~= qk + (mid + qv));
    lemma_prefix_split(s, i, qk, mid + qv);
    let j = i + qk.len();
    lemma_prefix_split(s, j, mid, qv);
    lemma_parse_quoted_prefix(s, i, key);
    lemma_chars_of_prefix(s, j, mid);
    assert(s[j] == ':');
    assert(s[j + 1] == ' ');
    let m = j + 2;
    lemma_parse_quoted_prefix(s, m, value);
    assert(skip_ws(s, j) == j);
    lemma_skip_ws_run(s, j + 1, m);
    assert(parse_member(s, i) == Some(((key, value), m + qv.len())));
}

/// One written profile object reads back as its three members, ending right
/// after its closing brace.
#[verifier::rlimit(100)]
proof fn lemma_parse_object_prefix(s: Seq<char>, i: int, p: ProfileData)
    requires
        0 <= i,
        i + profile_object(p).len() <= s.len(),
        s.subrange(i, i + profile_object(p).len()) == profile_object(p),
    ensures
        parse_object(s, i) == Some((profile_members(p), i + profile_object(p).len())),
{
    reveal_strlit("{\n    \"git_username\": ");
    reveal_strlit(",\n    \"git_email\": ");
    reveal_strlit(",\n    \"user_alias\": ");
    reveal_strlit("\n  }");
    reveal_strlit("git_username");
    reveal_strlit("git_email");
    reveal_strlit("user_alias");
    lemma_keys_plain();
    let l1 = "{\n    \"git_username\": "@;
    let l2 = ",\n    \"git_email\": "@;
    let l3 = ",\n    \"user_alias\": "@;
    let l4 = "\n  }"@;
    let head = seq!['{', '\n', ' ', ' ', ' ', ' '];
    let sep = seq![',', '\n', ' ', ' ', ' ', ' '];
    let tail = seq!['\n', ' ', ' ', '}'];
    let ku = "git_username"@;
    let ke = "git_email"@;
    let ka = "user_alias"@;
    let mt_u = member_text(ku, p.username);
    let mt_e = member_text(ke, p.email);
    let mt_a = member_text(ka, p.alias);
    let po = profile_object(p);
    assert(l1 =~= head + (seq!['"'] + ku + seq!['"', ':', ' ']));
    assert(l2 =~= sep + (seq!['"'] + ke + seq!['"', ':', ' ']));
    assert(l3 =~= sep + (seq!['"'] + ka + seq!['"', ':', ' ']));
    assert(l4 =~= tail);
    assert(po =~= head + (mt_u + (sep + (mt_e + (sep + (mt_a + tail))))));
    lemma_prefix_split(s, i, head, mt_u + (sep + (mt_e + (sep + (mt_a + tail)))));
    lemma_chars_of_prefix(s, i, head);
    let c0 = i + 6;
    lemma_prefix_split(s, c0, mt_u, sep + (mt_e + (sep + (mt_a + tail))));
    let e1 = c0 + mt_u.len();
    lemma_prefix_split(s, e1, sep, mt_e + (sep + (mt_a + tail)));
    lemma_chars_of_prefix(s, e1, sep);
    let c1 = e1 + 6;
    lemma_prefix_split(s, c1, mt_e, sep + (mt_a + tail));
    let e2 = c1 + mt_e.len();
    lemma_prefix_split(s, e2, sep, mt_a + tail);
    lemma_chars_of_prefix(s, e2, sep);
    let c2 = e2 + 6;
    lemma_prefix_split(s, c2, mt_a, tail);
    let e3 = c2 + mt_a.len();
    lemma_chars_of_prefix(s, e3, tail);
    let end = e3 + 4;
    assert(end == i + po.len());
    // the object's opening brace, then whitespace up to the first member
    assert(s[i] == '{');
    assert(s[c0] == '"') by {
        assert(s.subrange(c0, c0 + mt_u.len())[0] == s[c0]);
        assert(mt_u[0] == '"');
    }
    lemma_skip_ws_run(s, i + 1, c0);
    // the three members
    lemma_parse_member_prefix(s, c0, ku, p.username);
    assert(s[e1] == ',');
    assert(s[c1] == '"') by {
        assert(s.subrange(c1, c1 + mt_e.len())[0] == s[c1]);
        assert(mt_e[0] == '"');
    }
    lemma_skip_ws_run(s, e1 + 1, c1);
    lemma_parse_member_prefix(s, c1, ke, p.email);
    assert(s[e2] == ',');
    assert(s[c2] == '"') by {
        assert(s.subrange(c2, c2 + mt_a.len())[0] == s[c2]);
        assert(mt_a[0] == '"');
    }
    lemma_skip_ws_run(s, e2 + 1, c2);
    lemma_parse_member_prefix(s, c2, ka, p.alias);
    // the closing brace after its line break and indent
    assert(s[e3 + 3] == '}');
    lemma_skip_ws_run(s, e3, e3 + 3);
    // assemble, innermost first
    assert(skip_ws(s, e3) == e3 + 3);
    assert(parse_members_rest(s, e3) == Some((Seq::<(Seq<char>, Seq<char>)>::empty(), end)));
    assert(skip_ws(s, e2) == e2);
    assert(parse_members_rest(s, e2) == Some((seq![(ka, p.alias)], end))) by {
        assert(seq![(ka, p.alias)] + Seq::<(Seq<char>, Seq<char>)>::empty() =~= seq![
            (ka, p.alias),
        ]);
    }
    assert(skip_ws(s, e1) == e1);
    assert(parse_members_rest(s, e1) == Some((seq![(ke, p.email), (ka, p.alias)], end))) by {
        assert(seq![(ke, p.email)] + seq![(ka, p.alias)] =~= seq![(ke, p.email), (ka, p.alias)]);
    }
    assert(parse_object(s, i) == Some((profile_members(p), end))) by {
        assert(skip_ws(s, i + 1) == c0);
        assert(s[c0] != '}');
        assert(parse_member(s, c0) == Some(((ku, p.username), e1)));
        assert(seq![(ku, p.username)] + seq![(ke, p.email), (ka, p.alias)] =~= profile_members(p));
    }
}

/// A written object converts back to the profile it came from.
proof fn lemma_object_members_roundtrip(p: ProfileData)
    ensures
        object_to_profile(profile_members(p)) == Some(p),
{
    lemma_keys_plain();
    let m = profile_members(p);
    assert(m[0].0 == "git_username"@);
    assert(m[1].0 == "git_email"@);
    assert(m[2].0 == "user_alias"@);
    assert(m[0].0 != m[1].0 && m[0].0 != m[2].0 && m[1].0 != m[2].0);
    assert(lookup_from(m, "git_username"@, 0) == Some(p.username));
    assert(lookup_from(m, "git_email"@, 0) == Some(p.email)) by {
        assert(lookup_from(m, "git_email"@, 1) == Some(p.email));
    }
    assert(lookup_from(m, "user_alias"@, 0) == Some(p.alias)) by {
        assert(lookup_from(m, "user_alias"@, 2) == Some(p.alias));
        assert(lookup_from(m, "user_alias"@, 1) == Some(p.alias));
    }
    assert(distinct_keys(m)) by {
        assert forall|a: int, b: int| 0 <= a < b < m.len() implies (#[trigger] m[a]).0 != (
        #[trigger] m[b]).0 by {
        }
    }
    assert(object_to_profile(m) == Some(ProfileData { username: p.username, email: p.email, alias: p.alias }));
    assert(ProfileData { username: p.username, email: p.email, alias: p.alias } =~= p);
}

/// The written elements from position `k` on read back as their member
/// lists, ending right after the closing bracket.
#[verifier::rlimit(100)]
proof fn lemma_parse_array_rest_mid(s: Seq<char>, i: int, users: Seq<ProfileData>, k: int)
    requires
        0 <= i,
        1 <= k <= users.len(),
        i + items_mid(users, k).len() + 2 <= s.len(),
        s.subrange(i, i + items_mid(users, k).len() + 2) == items_mid(users, k) + seq!['\n', ']'],
    ensures
        parse_array_rest(s, i) == Some(
            (members_mid(users, k), i + items_mid(users, k).len() + 2),
        ),
    decreases users.len() - k,
{
    reveal_strlit(",\n  ");
    if k == users.len() {
        assert(items_mid(users, k) =~= Seq::<char>::empty());
        assert(items_mid(users, k) + seq!['\n', ']'] =~= seq!['\n', ']']);
        lemma_chars_of_prefix(s, i, seq!['\n', ']']);
        assert(s[i] == '\n' && s[i + 1] == ']');
        lemma_skip_ws_run(s, i, i + 1);
        assert(parse_array_rest(s, i) == Some(
            (Seq::<Seq<(Seq<char>, Seq<char>)>>::empty(), i + 2),
        ));
        assert(members_mid(users, k) =~= Seq::<Seq<(Seq<char>, Seq<char>)>>::empty());
    } else {
        let sep = ",\n  "@;
        let po = profile_object(users[k]);
        let rest_text = items_mid(users, k + 1) + seq!['\n', ']'];
        assert(items_mid(users, k) + seq!['\n', ']'] =~= sep + (po + rest_text));
        lemma_prefix_split(s, i, sep, po + rest_text);
        lemma_chars_of_prefix(s, i, sep);
        assert(sep.len() == 4);
        assert(sep[0] == ',' && sep[1] == '\n' && sep[2] == ' ' && sep[3] == ' ');
        let c = i + 4;
        lemma_prefix_split(s, c, po, rest_text);
        let e = c + po.len();
        assert(s[i] == ',');
        assert(s[c] == '{') by {
            reveal_strlit("{\n    \"git_username\": ");
            assert(s.subrange(c, c + po.len())[0] == s[c]);
            assert(po[0] == '{');
        }
        lemma_skip_ws_run(s, i + 1, c);
        assert(skip_ws(s, i) == i);
        lemma_parse_object_prefix(s, c, users[k]);
        lemma_parse_array_rest_mid(s, e, users, k + 1);
        let end = i + items_mid(users, k).len() + 2;
        assert(e + items_mid(users, k + 1).len() + 2 == end);
        assert(parse_array_rest(s, i) == Some(
            (seq![profile_members(users[k])] + members_mid(users, k + 1), end),
        ));
        assert(seq![profile_members(users[k])] + members_mid(users, k + 1) =~= members_mid(
            users,
            k,
        ));
    }
}

/// The member lists of the objects from `k` on convert back to the profiles
/// from `k` on.
proof fn lemma_members_mid_to_profiles(users: Seq<ProfileData>, k: int)
    requires
        0 <= k <= users.len(),
    ensures
        objects_to_profiles(members_mid(users, k)) == Some(
            users.subrange(k, users.len() as int),
        ),
    decreases users.len() - k,
{
    if k == users.len() {
        assert(members_mid(users, k) =~= Seq::<Seq<(Seq<char>, Seq<char>)>>::empty());
        assert(users.subrange(k, users.len() as int) =~= Seq::<ProfileData>::empty());
    } else {
        lemma_object_members_roundtrip(users[k]);
        lemma_members_mid_to_profiles(users, k + 1);
        lemma_objects_to_profiles_cons(
            profile_members(users[k]),
            users[k],
            members_mid(users, k + 1),
        );
        assert(seq![users[k]] + users.subrange(k + 1, users.len() as int) =~= users.subrange(
            k,
            users.len() as int,
        ));
    }
}

/// The elements' text decomposes into the first object and the rest.
proof fn lemma_json_items_decomp(users: Seq<ProfileData>)
    requires
        users.len() >= 1,
    ensures
        json_items(users) == profile_object(users[0]) + items_mid(users, 1),
    decreases users.len(),
{
    let n = users.len() as int;
    if n == 1 {
        assert(items_mid(users, 1) =~= Seq::<char>::empty());
        assert(profile_object(users[0]) + Seq::<char>::empty() =~= profile_object(users[0]));
    } else {
        let dl = users.drop_last();
        lemma_json_items_decomp(dl);
        lemma_items_mid_snoc(users, 1);
        assert(dl[0] == users[0]);
        assert(json_items(users) == json_items(dl) + ",\n  "@ + profile_object(users[n - 1]));
        assert((profile_object(users[0]) + items_mid(dl, 1)) + ",\n  "@ + profile_object(
            users[n - 1],
        ) =~= profile_object(users[0]) + (items_mid(dl, 1) + (",\n  "@ + profile_object(
            users[n - 1],
        ) + Seq::<char>::empty())));
        assert(items_mid(users, 1) == items_mid(dl, 1) + (",\n  "@ + profile_object(users[n - 1])
            + Seq::<char>::empty()));
        assert(json_items(users) =~= profile_object(users[0]) + items_mid(users, 1));
    }
}

/// Dropping the last profile drops the last element's text.
proof fn lemma_items_mid_snoc(users: Seq<ProfileData>, k: int)
    requires
        users.len() >= 2,
        1 <= k <= users.len() - 1,
    ensures
        items_mid(users, k) == items_mid(users.drop_last(), k) + (",\n  "@ + profile_object(
            users[users.len() - 1],
        ) + Seq::<char>::empty()),
    decreases users.len() - k,
{
    let n = users.len() as int;
    let dl = users.drop_last();
    if k == n - 1 {
        assert(items_mid(dl, k) =~= Seq::<char>::empty());
        assert(items_mid(users, n) =~= Seq::<char>::empty());
        assert(items_mid(users, k) == ",\n  "@ + profile_object(users[k]) + items_mid(users, n));
        assert(items_mid(users, k) =~= Seq::<char>::empty() + (",\n  "@ + profile_object(
            users[n - 1],
        ) + Seq::<char>::empty()));
    } else {
        lemma_items_mid_snoc(users, k + 1);
        assert(dl[k] == users[k]);
        assert(items_mid(users, k) == ",\n  "@ + profile_object(users[k]) + items_mid(
            users,
            k + 1,
        ));
        assert(items_mid(dl, k) == ",\n  "@ + profile_object(dl[k]) + items_mid(dl, k + 1));
        assert((",\n  "@ + profile_object(users[k]) + items_mid(dl, k + 1)) + (",\n  "@
            + profile_object(users[n - 1]) + Seq::<char>::empty()) =~= ",\n  "@ + profile_object(
            users[k],
        ) + (items_mid(dl, k + 1) + (",\n  "@ + profile_object(users[n - 1])
            + Seq::<char>::empty())));
    }
}

/// The shape of a written non-empty collection: its bracket, its first
/// object, the elements after it, and its closing line.
#[verifier::rlimit(100)]
proof fn lemma_json_of_decomp(users: Seq<ProfileData>)
    requires
        users.len() >= 1,
    ensures
        ({
            let s = json_of(users);
            let po = profile_object(users[0]);
            let mid = items_mid(users, 1);
            &&& s.len() == 6 + po.len() + mid.len()
            &&& s.subrange(4, 4 + po.len() as int) == po
            &&& s.subrange(4 + po.len() as int, s.len() as int) == mid + seq!['\n', ']']
            &&& s[0] == '['
            &&& s[4] == '{'
            &&& s[4] != ']'
            &&& s.last() == ']'
            &&& skip_ws(s, 0) == 0
            &&& skip_ws(s, 1) == 4
            &&& skip_ws(s, s.len() as int) == s.len()
        }),
{
    let s = json_of(users);
    reveal_strlit("[\n  ");
    reveal_strlit("\n]");
    let head = "[\n  "@;
    let foot = "\n]"@;
    lemma_json_items_decomp(users);
    let po = profile_object(users[0]);
    let mid = items_mid(users, 1);
    assert(s =~= head + (po + (mid + seq!['\n', ']'])));
    assert(s.subrange(0, s.len() as int) =~= s);
    lemma_prefix_split(s, 0, head, po + (mid + seq!['\n', ']']));
    lemma_chars_of_prefix(s, 0, head);
    assert(head[0] == '[' && head[1] == '\n' && head[2] == ' ' && head[3] == ' ');
    lemma_prefix_split(s, 4, po, mid + seq!['\n', ']']);
    assert(s[0] == '[');
    assert(s[4] == '{') by {
        reveal_strlit("{\n    \"git_username\": ");
        assert(s.subrange(4, 4 + po.len() as int)[0] == s[4]);
        assert(po[0] == '{');
    }
    assert(skip_ws(s, 0) == 0);
    lemma_skip_ws_run(s, 1, 4);
    assert(s.last() == ']') by {
        assert(s[s.len() - 1] == ']');
    }
}

/// A written non-empty collection reads back as itself.
#[verifier::rlimit(100)]
proof fn lemma_parse_json_of_nonempty(users: Seq<ProfileData>)
    requires
        users.len() >= 1,
    ensures
        parse_profiles(json_of(users)) == Some(users),
        json_of(users).len() > 0,
        json_of(users)[0] == '[',
        json_of(users).last() == ']',
{
    let s = json_of(users);
    let po = profile_object(users[0]);
    let mid = items_mid(users, 1);
    lemma_json_of_decomp(users);
    let e0: int = 4 + po.len() as int;
    lemma_parse_object_prefix(s, 4, users[0]);
    lemma_parse_array_rest_mid(s, e0, users, 1);
    let f: int = e0 + mid.len() as int + 2;
    assert(f == s.len());
    lemma_members_mid_to_profiles(users, 0);
    assert(seq![profile_members(users[0])] + members_mid(users, 1) =~= members_mid(users, 0));
    assert(users.subrange(0, users.len() as int) =~= users);
    assert(parse_profiles(s) == Some(users));
}

/// Round trip of the store: the text written for any collection reads back
/// as exactly that collection, and holds no surrounding whitespace, so
/// loading what was saved restores the collection, and saving what was
/// loaded keeps the stored text's meaning.
pub proof fn lemma_save_load_round_trip(users: Seq<ProfileData>)
    ensures
        parse_profiles(json_of(users)) == Some(users),
        spec_trim(json_of(users)) == json_of(users),
        json_of(users).len() > 0,
{
    let s = json_of(users);
    if users.len() == 0 {
        reveal_strlit("[]");
        assert(s.len() == 2);
        assert(s[0] == '[' && s[1] == ']');
        assert(skip_ws(s, 0) == 0);
        assert(skip_ws(s, 1) == 1);
        assert(skip_ws(s, 2) == 2);
        assert(parse_profiles(s) == Some(Seq::<ProfileData>::empty()));
        assert(users =~= Seq::<ProfileData>::empty());
        assert(!is_space('['));
        assert(trim_start(s) == s);
        assert(!is_space(']'));
        assert(trim_end(s) == s);
    } else {
        lemma_parse_json_of_nonempty(users);
        assert(!is_space('['));
        assert(trim_start(s) == s);
        assert(!is_space(']'));
        assert(trim_end(s) == s);
    }
}

} // verus!
