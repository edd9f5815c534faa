use vstd::prelude::*;

use crate::json::{escape_char, escape_string, hex_digit, json_items, json_of, profile_object,
    quoted};
use crate::profile::{GitUserProfile, profile_views};

verus! {

broadcast use crate::profile::lemma_profile_views_len, crate::profile::lemma_profile_views_index;

/// Escaping a concatenation escapes the parts one after the other.
proof fn lemma_escape_string_append(a: Seq<char>, b: Seq<char>)
    ensures
        escape_string(a + b) == escape_string(a) + escape_string(b),
    decreases a.len(),
{
    if a.len() == 0 {
        assert(a + b =~= b);
        assert(escape_string(a) + escape_string(b) =~= escape_string(b));
    } else {
        assert((a + b).len() > 0);
        assert((a + b)[0] == a[0]);
        assert((a + b).drop_first() =~= a.drop_first() + b);
        lemma_escape_string_append(a.drop_first(), b);
        assert(escape_char(a[0]) + (escape_string(a.drop_first()) + escape_string(b)) =~= (
        escape_char(a[0]) + escape_string(a.drop_first())) + escape_string(b));
    }
}

/// A single character escapes to its own escape alone.
proof fn lemma_escape_string_single(c: char)
    ensures
        escape_string(seq![c]) == escape_char(c),
{
    assert(seq![c].len() == 1);
    assert(seq![c][0] == c);
    assert(seq![c].drop_first() =~= Seq::<char>::empty());
    assert(escape_string(seq![c]) == escape_char(c) + escape_string(Seq::<char>::empty()));
    assert(escape_string(Seq::<char>::empty()) =~= Seq::<char>::empty());
    assert(escape_char(c) + Seq::<char>::empty() =~= escape_char(c));
}

/// The lowercase hexadecimal digit character for a value below sixteen.
fn hex_char(d: u32) -> (r: char)
    requires
        d < 16,
    ensures
        r == hex_digit(d as int),
{
    if d == 0 {
        '0'
    } else if d == 1 {
        '1'
    } else if d == 2 {
        '2'
    } else if d == 3 {
        '3'
    } else if d == 4 {
        '4'
    } else if d == 5 {
        '5'
    } else if d == 6 {
        '6'
    } else if d == 7 {
        '7'
    } else if d == 8 {
        '8'
    } else if d == 9 {
        '9'
    } else if d == 10 {
        'a'
    } else if d == 11 {
        'b'
    } else if d == 12 {
        'c'
    } else if d == 13 {
        'd'
    } else if d == 14 {
        'e'
    } else {
        'f'
    }
}

/// Appends the string's characters, each escaped as the format prescribes.
fn push_escaped(out: &mut String, s: &str)
    ensures
        final(out)@ == old(out)@ + escape_string(s@),
{
    let n = s.unicode_len();
    let mut i: usize = 0;
    while i < n
        invariant
            0 <= i <= n,
            n == s@.len(),
            out@ == old(out)@ + escape_string(s@.subrange(0, i as int)),
        decreases n - i,
    {
        let ghost out0 = out@;
        let c = s.get_char(i);
        if c == '"' {
            out.push('\\');
            out.push('"');
        } else if c == '\\' {
            out.push('\\');
            out.push('\\');
        } else if c == '\u{8}' {
            out.push('\\');
            out.push('b');
        } else if c == '\t' {
            out.push('\\');
            out.push('t');
        } else if c == '\n' {
            out.push('\\');
            out.push('n');
        } else if c == '\u{c}' {
            out.push('\\');
            out.push('f');
        } else if c == '\r' {
            out.push('\\');
            out.push('r');
        } else if (c as u32) < 0x20 {
            let u = c as u32;
            out.push('\\');
            out.push('u');
            out.push('0');
            out.push('0');
            out.push(hex_char(u / 16));
            out.push(hex_char(u % 16));
        } else {
            out.push(c);
        }
        proof {
            assert(out@ =~= out0 + escape_char(c));
            assert(s@.subrange(0, i as int + 1) =~= s@.subrange(0, i as int) + seq![c]);
            lemma_escape_string_append(s@.subrange(0, i as int), seq![c]);
            lemma_escape_string_single(c);
            assert(out@ =~= old(out)@ + escape_string(s@.subrange(0, i as int + 1)));
        }
        i = i + 1;
    }
    proof {
        assert(s@.subrange(0, n as int) =~= s@);
    }
}

/// Appends the string as a JSON string: the escaped body between quotes.
fn push_quoted(out: &mut String, s: &str)
    ensures
        final(out)@ == old(out)@ + quoted(s@),
{
    let ghost out0 = out@;
    out.push('"');
    push_escaped(out, s);
    out.push('"');
    proof {
        assert(out@ =~= out0 + quoted(s@));
    }
}

/// Appends one profile as an object of the three members, indented for one
/// level of nesting.
fn push_object(out: &mut String, p: &GitUserProfile)
    ensures
        final(out)@ == old(out)@ + profile_object(p@),
{
    let ghost out0 = out@;
    out.append("{\n    \"git_username\": ");
    push_quoted(out, p.git_username.as_str());
    out.append(",\n    \"git_email\": ");
    push_quoted(out, p.git_email.as_str());
    out.append(",\n    \"user_alias\": ");
    push_quoted(out, p.user_alias.as_str());
    out.append("\n  }");
    proof {
        assert(out@ =~= out0 + profile_object(p@));
    }
}

/// The whole collection as the stored file's text.
pub fn to_json_string(users: &Vec<GitUserProfile>) -> (r: String)
    ensures
        r@ == json_of(profile_views(users@)),
{
    let ghost views = profile_views(users@);
    if users.len() == 0 {
        return String::from_str("[]");
    }
    let mut out = String::new();
    out.append("[\n  ");
    let n = users.len();
    let mut k: usize = 0;
    while k < n
        invariant
            0 < n,
            0 <= k <= n,
            n == users@.len(),
            views == profile_views(users@),
            k == 0 ==> out@ == "[\n  "@,
            k > 0 ==> out@ == "[\n  "@ + json_items(views.subrange(0, k as int)),
        decreases n - k,
    {
        let ghost out0 = out@;
        if k > 0 {
            out.append(",\n  ");
        }
        push_object(&mut out, &users[k]);
        proof {
            let pre = views.subrange(0, k as int);
            let post = views.subrange(0, k as int + 1);
            assert(post.len() == k + 1);
            assert(post.last() == views[k as int]);
            if k == 0 {
                assert(post[0] == views[0]);
                assert(json_items(post) == profile_object(views[0]));
                assert(out@ =~= "[\n  "@ + json_items(post));
            } else {
                assert(post.drop_last() =~= pre);
                assert(json_items(post) == json_items(pre) + ",\n  "@ + profile_object(
                    views[k as int],
                ));
                assert(out@ =~= "[\n  "@ + json_items(post));
            }
        }
        k = k + 1;
    }
    out.append("\n]");
    proof {
        assert(views.subrange(0, n as int) =~= views);
        assert(out@ =~= "[\n  "@ + json_items(views) + "\n]"@);
    }
    out
}

} // verus!
