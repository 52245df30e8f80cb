//! Verified text utilities over unicode character sequences: equality,
//! joining, decimal rendering, whitespace trimming and prefix extraction.

use vstd::prelude::*;

verus! {

/// Character-wise equality of two string slices.
pub fn str_eq(a: &str, b: &str) -> (r: bool)
    ensures
        r == (a@ == b@),
{
    let alen = a.unicode_len();
    let blen = b.unicode_len();
    if alen != blen {
        return false;
    }
    let mut i: usize = 0;
    while i < alen
        invariant
            alen == a@.len(),
            blen == b@.len(),
            alen == blen,
            i <= alen,
            forall|j: int| 0 <= j < i ==> a@[j] == b@[j],
        decreases alen - i,
    {
        if a.get_char(i) != b.get_char(i) {
            return false;
        }
        i += 1;
    }
    proof {
        assert(a@ =~= b@);
    }
    true
}

/// Whether a character vector holds an entry with the given text.
pub fn contains_str(v: &Vec<String>, s: &str) -> (r: bool)
    ensures
        r == v.deep_view().contains(s@),
{
    let mut i: usize = 0;
    while i < v.len()
        invariant
            i <= v.len(),
            forall|j: int| 0 <= j < i ==> v.deep_view()[j] != s@,
        decreases v.len() - i,
    {
        if str_eq(v[i].as_str(), s) {
            proof {
                assert(v.deep_view()[i as int] == s@);
            }
            return true;
        }
        i += 1;
    }
    proof {
        assert forall|j: int| 0 <= j < v.deep_view().len() implies v.deep_view()[j] != s@ by {}
    }
    false
}

/// Relies on String::push: appends exactly the given character.
#[verifier::external_body]
pub fn push_char(s: &mut String, c: char)
    ensures
        final(s)@ == old(s)@ + seq![c],
{
    s.push(c);
}

/// Appends an entry to a character vector.
pub fn push_entry(v: &mut Vec<String>, s: String)
    ensures
        final(v).deep_view() == old(v).deep_view().push(s@),
{
    let ghost pre = v.deep_view();
    let ghost sv = s@;
    v.push(s);
    proof {
        assert(v.deep_view() =~= pre.push(sv));
    }
}

/// The pieces joined with a separator between consecutive pieces.
pub open spec fn spec_join(items: Seq<Seq<char>>, sep: Seq<char>) -> Seq<char>
    decreases items.len(),
{
    if items.len() == 0 {
        Seq::<char>::empty()
    } else if items.len() == 1 {
        items[0]
    } else {
        items[0] + sep + spec_join(items.drop_first(), sep)
    }
}

proof fn lemma_join_snoc(items: Seq<Seq<char>>, sep: Seq<char>, last: Seq<char>)
    requires
        items.len() >= 1,
    ensures
        spec_join(items.push(last), sep) == spec_join(items, sep) + sep + last,
    decreases items.len(),
{
    if items.len() == 1 {
        assert(items.push(last).drop_first() =~= seq![last]);
        assert(spec_join(seq![last], sep) == last);
        assert(items.push(last)[0] == items[0]);
        assert(spec_join(items.push(last), sep) == items[0] + sep + last);
    } else {
        assert(items.push(last).drop_first() =~= items.drop_first().push(last));
        lemma_join_snoc(items.drop_first(), sep, last);
        assert(spec_join(items.push(last), sep) =~= spec_join(items, sep) + sep + last);
    }
}

/// Joins the entries with the separator, in order.
pub fn join_with(items: &Vec<String>, sep: &str) -> (r: String)
    ensures
        r@ == spec_join(items.deep_view(), sep@),
{
    let mut out = String::new();
    if items.len() == 0 {
        return out;
    }
    out.append(items[0].as_str());
    proof {
        assert(items.deep_view().take(1) =~= seq![items.deep_view()[0]]);
        assert(out@ == spec_join(items.deep_view().take(1), sep@));
    }
    let mut i: usize = 1;
    while i < items.len()
        invariant
            1 <= i <= items.len(),
            out@ == spec_join(items.deep_view().take(i as int), sep@),
        decreases items.len() - i,
    {
        out.append(sep);
        out.append(items[i].as_str());
        proof {
            assert(items.deep_view().take(i as int).len() == i);
            assert(items.deep_view().take(i + 1) =~= items.deep_view().take(i as int).push(
                items.deep_view()[i as int],
            ));
            lemma_join_snoc(items.deep_view().take(i as int), sep@, items.deep_view()[i as int]);
        }
        i += 1;
    }
    proof {
        assert(items.deep_view().take(items.deep_view().len() as int) =~= items.deep_view());
    }
    out
}

/// The decimal digit character for a value below ten.
pub open spec fn spec_digit(d: nat) -> char {
    if d == 0 {
        '0'
    } else if d == 1 {
        '1'
    } else if d == 2 {
        '2'
    } else if d == 3 {
        '3'
    } else if d == 4 {
        '4'
    } else if d == 5 {
        '5'
    } else if d == 6 {
        '6'
    } else if d == 7 {
        '7'
    } else if d == 8 {
        '8'
    } else {
        '9'
    }
}

/// The decimal rendering of a number, most significant digit first.
pub open spec fn spec_dec(n: nat) -> Seq<char>
    decreases n,
{
    if n < 10 {
        seq![spec_digit(n)]
    } else {
        spec_dec(n / 10).push(spec_digit(n % 10))
    }
}

fn digit_str(d: u32) -> (r: &'static str)
    requires
        d < 10,
    ensures
        r@ == seq![spec_digit(d as nat)],
{
    match d {
        0 => {
            proof {
                reveal_strlit("0");
                assert("0"@ =~= seq![spec_digit(0)]);
            }
            "0"
        },
        1 => {
            proof {
                reveal_strlit("1");
                assert("1"@ =~= seq![spec_digit(1)]);
            }
            "1"
        },
        2 => {
            proof {
                reveal_strlit("2");
                assert("2"@ =~= seq![spec_digit(2)]);
            }
            "2"
        },
        3 => {
            proof {
                reveal_strlit("3");
                assert("3"@ =~= seq![spec_digit(3)]);
            }
            "3"
        },
        4 => {
            proof {
                reveal_strlit("4");
                assert("4"@ =~= seq![spec_digit(4)]);
            }
            "4"
        },
        5 => {
            proof {
                reveal_strlit("5");
                assert("5"@ =~= seq![spec_digit(5)]);
            }
            "5"
        },
        6 => {
            proof {
                reveal_strlit("6");
                assert("6"@ =~= seq![spec_digit(6)]);
            }
            "6"
        },
        7 => {
            proof {
                reveal_strlit("7");
                assert("7"@ =~= seq![spec_digit(7)]);
            }
            "7"
        },
        8 => {
            proof {
                reveal_strlit("8");
                assert("8"@ =~= seq![spec_digit(8)]);
            }
            "8"
        },
        _ => {
            proof {
                reveal_strlit("9");
                assert("9"@ =~= seq![spec_digit(9)]);
            }
            "9"
        },
    }
}

/// Renders a number in decimal.
pub fn u32_string(n: u32) -> (r: String)
    ensures
        r@ == spec_dec(n as nat),
    decreases n,
{
    if n < 10 {
        let mut s = String::new();
        s.append(digit_str(n));
        proof {
            assert(s@ =~= seq![spec_digit(n as nat)]);
        }
        s
    } else {
        let q = n / 10;
        let d = n % 10;
        let mut s = u32_string(q);
        s.append(digit_str(d));
        proof {
            assert(q as nat == (n as nat) / 10);
            assert(d as nat == (n as nat) % 10);
            assert(s@ =~= spec_dec((n as nat) / 10).push(spec_digit((n as nat) % 10)));
        }
        s
    }
}

/// Whether a character counts as whitespace for trimming, by its code point.
pub open spec fn spec_is_wspace(c: char) -> bool {
    let u = c as u32;
    u == 0x20 || (0x09 <= u && u <= 0x0d) || u == 0x85 || u == 0xa0 || u == 0x1680 || (0x2000 <= u
        && u <= 0x200a) || u == 0x2028 || u == 0x2029 || u == 0x202f || u == 0x205f || u == 0x3000
}

fn is_wspace(c: char) -> (r: bool)
    ensures
        r == spec_is_wspace(c),
{
    let u = c as u32;
    u == 0x20 || (0x09 <= u && u <= 0x0d) || u == 0x85 || u == 0xa0 || u == 0x1680 || (0x2000 <= u
        && u <= 0x200a) || u == 0x2028 || u == 0x2029 || u == 0x202f || u == 0x205f || u == 0x3000
}

/// The text with leading whitespace removed.
pub open spec fn spec_trim_start(s: Seq<char>) -> Seq<char>
    decreases s.len(),
{
    if s.len() > 0 && spec_is_wspace(s[0]) {
        spec_trim_start(s.drop_first())
    } else {
        s
    }
}

/// The text with trailing whitespace removed.
pub open spec fn spec_trim_end(s: Seq<char>) -> Seq<char>
    decreases s.len(),
{
    if s.len() > 0 && spec_is_wspace(s[s.len() - 1]) {
        spec_trim_end(s.drop_last())
    } else {
        s
    }
}

/// The text with surrounding whitespace removed.
pub open spec fn spec_trim(s: Seq<char>) -> Seq<char> {
    spec_trim_end(spec_trim_start(s))
}

proof fn lemma_trim_start_at(s: Seq<char>, i: int)
    requires
        0 <= i <= s.len(),
        forall|j: int| 0 <= j < i ==> spec_is_wspace(s[j]),
        i == s.len() || !spec_is_wspace(s[i]),
    ensures
        spec_trim_start(s) == s.subrange(i, s.len() as int),
    decreases i,
{
    if i == 0 {
        assert(s.subrange(0, s.len() as int) =~= s);
    } else {
        lemma_trim_start_at(s.drop_first(), i - 1);
        assert(s.drop_first().subrange(i - 1, s.drop_first().len() as int) =~= s.subrange(
            i,
            s.len() as int,
        ));
    }
}

proof fn lemma_trim_end_at(s: Seq<char>, i: int)
    requires
        0 <= i <= s.len(),
        forall|j: int| i <= j < s.len() ==> spec_is_wspace(s[j]),
        i == 0 || !spec_is_wspace(s[i - 1]),
    ensures
        spec_trim_end(s) == s.take(i),
    decreases s.len(),
{
    if i == s.len() {
        assert(s.take(i) =~= s);
    } else {
        lemma_trim_end_at(s.drop_last(), i);
        assert(s.drop_last().take(i) =~= s.take(i));
    }
}

/// Removes surrounding whitespace.
pub fn trim_text(s: &str) -> (r: String)
    ensures
        r@ == spec_trim(s@),
{
    let len = s.unicode_len();
    let mut start: usize = 0;
    while start < len && is_wspace(s.get_char(start))
        invariant
            len == s@.len(),
            start <= len,
            forall|j: int| 0 <= j < start ==> spec_is_wspace(s@[j]),
        decreases len - start,
    {
        start += 1;
    }
    let mut end: usize = len;
    while end > start && is_wspace(s.get_char(end - 1))
        invariant
            len == s@.len(),
            start <= end <= len,
            forall|j: int| end <= j < len ==> spec_is_wspace(s@[j]),
        decreases end,
    {
        end -= 1;
    }
    proof {
        lemma_trim_start_at(s@, start as int);
        let t = s@.subrange(start as int, s@.len() as int);
        assert forall|j: int| end - start <= j < t.len() implies spec_is_wspace(t[j]) by {
            assert(t[j] == s@[j + start]);
        }
        lemma_trim_end_at(t, end - start);
        assert(t.take(end - start) =~= s@.subrange(start as int, end as int));
    }
    let sub = s.substring_char(start, end);
    String::from_str(sub)
}

/// The prefix of the text before the first occurrence of the delimiter, or
/// the whole text when the delimiter does not occur.
pub open spec fn spec_before_char(s: Seq<char>, c: char) -> Seq<char>
    decreases s.len(),
{
    if s.len() == 0 {
        Seq::<char>::empty()
    } else if s[0] == c {
        Seq::<char>::empty()
    } else {
        seq![s[0]] + spec_before_char(s.drop_first(), c)
    }
}

proof fn lemma_before_char_at(s: Seq<char>, c: char, i: int)
    requires
        0 <= i <= s.len(),
        forall|j: int| 0 <= j < i ==> s[j] != c,
        i == s.len() || s[i] == c,
    ensures
        spec_before_char(s, c) == s.take(i),
    decreases i,
{
    if i == 0 {
        assert(s.take(0) =~= Seq::<char>::empty());
    } else {
        lemma_before_char_at(s.drop_first(), c, i - 1);
        assert(seq![s[0]] + s.drop_first().take(i - 1) =~= s.take(i));
    }
}

/// The prefix before the first occurrence of the delimiter.
pub fn before_char(s: &str, c: char) -> (r: String)
    ensures
        r@ == spec_before_char(s@, c),
{
    let len = s.unicode_len();
    let mut i: usize = 0;
    while i < len && s.get_char(i) != c
        invariant
            len == s@.len(),
            i <= len,
            forall|j: int| 0 <= j < i ==> s@[j] != c,
        decreases len - i,
    {
        i += 1;
    }
    proof {
        lemma_before_char_at(s@, c, i as int);
        assert(s@.take(i as int) =~= s@.subrange(0, i as int));
    }
    let sub = s.substring_char(0, i);
    String::from_str(sub)
}

} // verus!
