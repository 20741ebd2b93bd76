//! Text helpers shared by the classifier, the supervisor and the parsers:
//! white space, trimming, comparison, joining and decimal numerals.

use vstd::prelude::*;
use vstd::std_specs::iter::IteratorSpec;
use vstd::string::StringExecFns;
use vstd::string::StrSliceExecFns;

verus! {

/// Whether `c` is white space: a character with the Unicode property
/// `White_Space`. These are the controls from the tab to the carriage
/// return, the space, the next line control, the no-break space, the ogham
/// space mark, the spaces from the en quad to the hair space, the line and
/// paragraph separators, the narrow no-break space, the medium mathematical
/// space and the ideographic space.
pub open spec fn is_whitespace(c: char) -> bool {
    let u = c as u32;
    ||| 0x0009 <= u <= 0x000D
    ||| u == 0x0020
    ||| u == 0x0085
    ||| u == 0x00A0
    ||| u == 0x1680
    ||| 0x2000 <= u <= 0x200A
    ||| u == 0x2028
    ||| u == 0x2029
    ||| u == 0x202F
    ||| u == 0x205F
    ||| u == 0x3000
}

/// Tells whether `c` is white space.
pub fn is_white_space(c: char) -> (r: bool)
    ensures
        r == is_whitespace(c),
{
    let u: u32 = c as u32;
    (0x0009 <= u && u <= 0x000D) || u == 0x0020 || u == 0x0085 || u == 0x00A0 || u == 0x1680 || (
    0x2000 <= u && u <= 0x200A) || u == 0x2028 || u == 0x2029 || u == 0x202F || u == 0x205F || u
        == 0x3000
}

/// A text is blank when it holds nothing but white space; the empty text is blank.
pub open spec fn blank(s: Seq<char>) -> bool {
    forall|i: int| 0 <= i < s.len() ==> is_whitespace(#[trigger] s[i])
}

/// `s` without its leading white space.
pub open spec fn trim_start(s: Seq<char>) -> Seq<char>
    decreases s.len(),
{
    if s.len() > 0 && is_whitespace(s[0]) {
        trim_start(s.drop_first())
    } else {
        s
    }
}

/// `s` without its trailing white space.
pub open spec fn trim_end(s: Seq<char>) -> Seq<char>
    decreases s.len(),
{
    if s.len() > 0 && is_whitespace(s.last()) {
        trim_end(s.drop_last())
    } else {
        s
    }
}

/// `s` without the white space at either end.
pub open spec fn trimmed(s: Seq<char>) -> Seq<char> {
    trim_end(trim_start(s))
}

/// The characters of an optional borrowed text.
pub open spec fn chars_of(v: Option<&str>) -> Option<Seq<char>> {
    match v {
        Some(x) => Some(x@),
        None => None,
    }
}

/// The characters of an optional text.
pub open spec fn text_of(v: Option<String>) -> Option<Seq<char>> {
    match v {
        Some(s) => Some(s@),
        None => None,
    }
}

/// Whether `s` begins with `prefix`.
pub open spec fn starts_with(s: Seq<char>, prefix: Seq<char>) -> bool {
    prefix.len() <= s.len() && s.subrange(0, prefix.len() as int) == prefix
}

/// What follows `prefix` in `s`, where `s` begins with it.
pub open spec fn after_prefix(s: Seq<char>, prefix: Seq<char>) -> Option<Seq<char>> {
    if starts_with(s, prefix) {
        Some(s.subrange(prefix.len() as int, s.len() as int))
    } else {
        None
    }
}

/// The views of a sequence of strings, in order.
pub open spec fn views(parts: Seq<String>) -> Seq<Seq<char>> {
    Seq::new(parts.len(), |i: int| parts[i]@)
}

/// The parts with a line feed between each two neighbours.
pub open spec fn join_lines(parts: Seq<Seq<char>>) -> Seq<char>
    decreases parts.len(),
{
    if parts.len() == 0 {
        Seq::empty()
    } else if parts.len() == 1 {
        parts[0]
    } else {
        join_lines(parts.drop_last()) + seq!['\n'] + parts.last()
    }
}

/// The character that writes the digit `d`.
pub open spec fn digit(d: int) -> char {
    if d == 0 {
        '0'
    } else if d == 1 {
        '1'
    } else if d == 2 {
        '2'
    } else if d == 3 {
        '3'
    } else if d == 4 {
        '4'
    } else if d == 5 {
        '5'
    } else if d == 6 {
        '6'
    } else if d == 7 {
        '7'
    } else if d == 8 {
        '8'
    } else {
        '9'
    }
}

/// The decimal numeral of `n`, without leading zeros.
pub open spec fn decimal(n: nat) -> Seq<char>
    decreases n,
{
    if n < 10 {
        seq![digit(n as int)]
    } else {
        decimal(n / 10).push(digit((n % 10) as int))
    }
}

/// The decimal numeral of `i`, with a minus sign in front of a negative number.
pub open spec fn signed_decimal(i: int) -> Seq<char> {
    if i < 0 {
        seq!['-'] + decimal((-i) as nat)
    } else {
        decimal(i as nat)
    }
}

/// Dropping leading white space leaves the part from the first character that is none.
pub proof fn lemma_trim_start_at(s: Seq<char>, a: int)
    requires
        0 <= a <= s.len(),
        forall|i: int| 0 <= i < a ==> is_whitespace(#[trigger] s[i]),
        a < s.len() ==> !is_whitespace(s[a]),
    ensures
        trim_start(s) == s.subrange(a, s.len() as int),
    decreases a,
{
    if a == 0 {
        assert(s.subrange(0, s.len() as int) =~= s);
    } else {
        let rest = s.drop_first();
        assert forall|i: int| 0 <= i < a - 1 implies is_whitespace(#[trigger] rest[i]) by {
            assert(rest[i] == s[i + 1]);
        }
        lemma_trim_start_at(rest, a - 1);
        assert(rest.subrange(a - 1, rest.len() as int) =~= s.subrange(a, s.len() as int));
    }
}

/// Dropping trailing white space leaves the part up to the last character that is none.
pub proof fn lemma_trim_end_at(s: Seq<char>, b: int)
    requires
        0 <= b <= s.len(),
        forall|i: int| b <= i < s.len() ==> is_whitespace(#[trigger] s[i]),
        0 < b ==> !is_whitespace(s[b - 1]),
    ensures
        trim_end(s) == s.subrange(0, b),
    decreases s.len() - b,
{
    if b == s.len() {
        assert(s.subrange(0, b) =~= s);
    } else {
        let rest = s.drop_last();
        assert forall|i: int| b <= i < rest.len() implies is_whitespace(#[trigger] rest[i]) by {
            assert(rest[i] == s[i]);
        }
        lemma_trim_end_at(rest, b);
        assert(rest.subrange(0, b) =~= s.subrange(0, b));
    }
}

/// Tells whether `s` is empty or holds only white space.
pub fn is_blank(s: &str) -> (r: bool)
    ensures
        r == blank(s@),
{
    broadcast use vstd::string::group_string_axioms;

    let mut it = s.chars();
    let ghost mut seen: int = 0;
    loop
        invariant
            0 <= seen <= s@.len(),
            it.obeys_prophetic_iter_laws(),
            it.remaining() == s@.subrange(seen, s@.len() as int),
            forall|i: int| 0 <= i < seen ==> is_whitespace(#[trigger] s@[i]),
        decreases s@.len() - seen,
    {
        match it.next() {
            Some(c) => {
                assert(c == s@[seen]);
                if !is_white_space(c) {
                    return false;
                }
                proof {
                    assert(it.remaining() == s@.subrange(seen + 1, s@.len() as int));
                    seen = seen + 1;
                }
            },
            None => {
                return true;
            },
        }
    }
}

/// Returns `s` without the white space at either end.
pub fn trim(s: &str) -> (r: &str)
    ensures
        r@ == trimmed(s@),
{
    broadcast use vstd::string::group_string_axioms;

    let n = s.unicode_len();
    let mut it = s.chars();
    let mut at: usize = 0;
    // `from` is the first character that is no white space, `to` one past the last.
    let mut from: usize = 0;
    let mut to: usize = 0;
    let mut found = false;
    loop
        invariant
            n == s@.len(),
            0 <= at <= n,
            it.obeys_prophetic_iter_laws(),
            it.remaining() == s@.subrange(at as int, s@.len() as int),
            !found ==> from == 0 && to == 0 && forall|i: int|
                0 <= i < at ==> is_whitespace(#[trigger] s@[i]),
            found ==> {
                &&& from < to <= at
                &&& !is_whitespace(s@[from as int])
                &&& !is_whitespace(s@[to - 1])
                &&& forall|i: int| 0 <= i < from ==> is_whitespace(#[trigger] s@[i])
                &&& forall|i: int| to <= i < at ==> is_whitespace(#[trigger] s@[i])
            },
        ensures
            at == n,
        decreases n - at,
    {
        match it.next() {
            Some(c) => {
                assert(c == s@[at as int]);
                assert(it.remaining() == s@.subrange(at + 1, s@.len() as int));
                if !is_white_space(c) {
                    if !found {
                        from = at;
                        found = true;
                    }
                    to = at + 1;
                }
                at = at + 1;
            },
            None => {
                break;
            },
        }
    }
    if !found {
        from = n;
        to = n;
    }
    proof {
        lemma_trim_start_at(s@, from as int);
        let rest = s@.subrange(from as int, n as int);
        assert forall|i: int| to - from <= i < rest.len() implies is_whitespace(
            #[trigger] rest[i],
        ) by {
            assert(rest[i] == s@[i + from]);
        }
        lemma_trim_end_at(rest, to - from);
        assert(rest.subrange(0, to - from) =~= s@.subrange(from as int, to as int));
    }
    s.substring_char(from, to)
}

/// Tells whether two texts hold the same characters.
pub fn same_text(a: &str, b: &str) -> (r: bool)
    ensures
        r == (a@ == b@),
{
    broadcast use vstd::string::group_string_axioms;

    let mut ia = a.chars();
    let mut ib = b.chars();
    let ghost mut seen: int = 0;
    loop
        invariant
            0 <= seen <= a@.len(),
            seen <= b@.len(),
            ia.obeys_prophetic_iter_laws(),
            ib.obeys_prophetic_iter_laws(),
            ia.remaining() == a@.subrange(seen, a@.len() as int),
            ib.remaining() == b@.subrange(seen, b@.len() as int),
            forall|i: int| 0 <= i < seen ==> a@[i] == b@[i],
        decreases a@.len() - seen,
    {
        let x = ia.next();
        let y = ib.next();
        match x {
            Some(c) => {
                match y {
                    Some(d) => {
                        assert(c == a@[seen]);
                        assert(d == b@[seen]);
                        if c != d {
                            return false;
                        }
                        proof {
                            assert(ia.remaining() == a@.subrange(seen + 1, a@.len() as int));
                            assert(ib.remaining() == b@.subrange(seen + 1, b@.len() as int));
                            seen = seen + 1;
                        }
                    },
                    None => {
                        assert(a@.len() != b@.len());
                        return false;
                    },
                }
            },
            None => {
                match y {
                    Some(_) => {
                        assert(a@.len() != b@.len());
                        return false;
                    },
                    None => {
                        assert(a@ =~= b@);
                        return true;
                    },
                }
            },
        }
    }
}

/// Tells whether `s` begins with `prefix`.
pub fn has_prefix(s: &str, prefix: &str) -> (r: bool)
    ensures
        r == starts_with(s@, prefix@),
{
    broadcast use vstd::string::group_string_axioms;

    let mut is = s.chars();
    let mut ip = prefix.chars();
    let ghost mut seen: int = 0;
    loop
        invariant
            0 <= seen <= s@.len(),
            seen <= prefix@.len(),
            is.obeys_prophetic_iter_laws(),
            ip.obeys_prophetic_iter_laws(),
            is.remaining() == s@.subrange(seen, s@.len() as int),
            ip.remaining() == prefix@.subrange(seen, prefix@.len() as int),
            forall|i: int| 0 <= i < seen ==> s@[i] == prefix@[i],
        decreases prefix@.len() - seen,
    {
        match ip.next() {
            None => {
                assert(s@.subrange(0, prefix@.len() as int) =~= prefix@);
                return true;
            },
            Some(d) => {
                assert(d == prefix@[seen]);
                match is.next() {
                    None => {
                        return false;
                    },
                    Some(c) => {
                        assert(c == s@[seen]);
                        if c != d {
                            proof {
                                if prefix@.len() <= s@.len() {
                                    assert(s@.subrange(0, prefix@.len() as int)[seen] == s@[seen]);
                                }
                            }
                            return false;
                        }
                        proof {
                            assert(is.remaining() == s@.subrange(seen + 1, s@.len() as int));
                            assert(ip.remaining() == prefix@.subrange(
                                seen + 1,
                                prefix@.len() as int,
                            ));
                            seen = seen + 1;
                        }
                    },
                }
            },
        }
    }
}

/// Returns what follows `prefix` in `s`, where `s` begins with it.
pub fn strip_prefix<'a>(s: &'a str, prefix: &str) -> (r: Option<&'a str>)
    ensures
        chars_of(r) == after_prefix(s@, prefix@),
{
    if has_prefix(s, prefix) {
        let from = prefix.unicode_len();
        let to = s.unicode_len();
        Some(s.substring_char(from, to))
    } else {
        None
    }
}

/// Joins the parts with a line feed between each two neighbours.
pub fn join_with_newline(parts: &Vec<String>) -> (r: String)
    ensures
        r@ == join_lines(views(parts@)),
{
    let mut out = String::new();
    let mut i: usize = 0;
    while i < parts.len()
        invariant
            0 <= i <= parts.len(),
            out@ == join_lines(views(parts@).take(i as int)),
        decreases parts.len() - i,
    {
        let ghost done = views(parts@).take(i as int);
        let ghost next = views(parts@).take(i + 1);
        proof {
            assert(next.drop_last() =~= done);
            assert(next.last() == parts@[i as int]@);
            reveal_strlit("\n");
            assert("\n"@ =~= seq!['\n']);
        }
        if i > 0 {
            out.append("\n");
        }
        out.append(parts[i].as_str());
        proof {
            if i == 0 {
                assert(done.len() == 0);
                assert(out@ =~= next[0]);
            } else {
                assert(out@ =~= join_lines(done) + seq!['\n'] + next.last());
            }
        }
        i = i + 1;
    }
    proof {
        assert(views(parts@).take(parts.len() as int) =~= views(parts@));
    }
    out
}

/// The one-character text that writes the digit `d`.
fn digit_text(d: u64) -> (r: &'static str)
    requires
        d < 10,
    ensures
        r@ == seq![digit(d as int)],
{
    proof {
        reveal_strlit("0");
        reveal_strlit("1");
        reveal_strlit("2");
        reveal_strlit("3");
        reveal_strlit("4");
        reveal_strlit("5");
        reveal_strlit("6");
        reveal_strlit("7");
        reveal_strlit("8");
        reveal_strlit("9");
    }
    let r = if d == 0 {
        "0"
    } else if d == 1 {
        "1"
    } else if d == 2 {
        "2"
    } else if d == 3 {
        "3"
    } else if d == 4 {
        "4"
    } else if d == 5 {
        "5"
    } else if d == 6 {
        "6"
    } else if d == 7 {
        "7"
    } else if d == 8 {
        "8"
    } else {
        "9"
    };
    assert(r@ =~= seq![digit(d as int)]);
    r
}

/// Writes `n` as a decimal numeral.
pub fn u64_to_text(n: u64) -> (r: String)
    ensures
        r@ == decimal(n as nat),
    decreases n,
{
    if n < 10 {
        String::from_str(digit_text(n))
    } else {
        let mut out = u64_to_text(n / 10);
        out.append(digit_text(n % 10));
        proof {
            assert(out@ =~= decimal((n / 10) as nat).push(digit((n % 10) as int)));
        }
        out
    }
}

/// Writes `i` as a decimal numeral, with a minus sign in front of a negative number.
pub fn i32_to_text(i: i32) -> (r: String)
    ensures
        r@ == signed_decimal(i as int),
{
    if i < 0 {
        let magnitude: u64 = (-(i as i64)) as u64;
        let mut out = String::from_str("-");
        let digits = u64_to_text(magnitude);
        out.append(digits.as_str());
        proof {
            reveal_strlit("-");
            assert(out@ =~= seq!['-'] + decimal((-i) as nat));
        }
        out
    } else {
        u64_to_text(i as u64)
    }
}

} // verus!
