use vstd::prelude::*;

verus! {

/// A whitespace character in the sense of Unicode's White_Space property,
/// the set that `str::trim` removes.
pub open spec fn is_space(c: char) -> bool {
    let u = c as u32;
    ||| 0x09 <= u <= 0x0d
    ||| u == 0x20
    ||| u == 0x85
    ||| u == 0xa0
    ||| u == 0x1680
    ||| 0x2000 <= u <= 0x200a
    ||| u == 0x2028
    ||| u == 0x2029
    ||| u == 0x202f
    ||| u == 0x205f
    ||| u == 0x3000
}

/// `s` without its leading whitespace.
pub open spec fn trim_start(s: Seq<char>) -> Seq<char>
    decreases s.len(),
{
    if s.len() > 0 && is_space(s[0]) {
        trim_start(s.drop_first())
    } else {
        s
    }
}

/// `s` without its trailing whitespace.
pub open spec fn trim_end(s: Seq<char>) -> Seq<char>
    decreases s.len(),
{
    if s.len() > 0 && is_space(s.last()) {
        trim_end(s.drop_last())
    } else {
        s
    }
}

/// `s` without leading and trailing whitespace.
pub open spec fn trimmed(s: Seq<char>) -> Seq<char> {
    trim_end(trim_start(s))
}

/// An ASCII decimal digit.
pub open spec fn is_digit(c: char) -> bool {
    '0' <= c <= '9'
}

/// One or more decimal digits.
/// An ASCII decimal digit.
pub open spec fn is_digits(d: Seq<char>) -> bool {
    d.len() > 0 && forall|i: int| 0 <= i < d.len() ==> is_digit(#[trigger] d[i])
}

/// The value of a string of decimal digits.
pub open spec fn digits_value(d: Seq<char>) -> int
    decreases d.len(),
{
    if d.len() == 0 {
        0
    } else {
        digits_value(d.drop_last()) * 10 + (d.last() as int - '0' as int)
    }
}

/// An unsigned decimal number: digits, with an optional leading `+`.
pub open spec fn is_number(t: Seq<char>) -> bool {
    is_digits(t) || (t.len() > 0 && t[0] == '+' && is_digits(t.drop_first()))
}

/// The value of a text for which `is_number` holds.
pub open spec fn number_value(t: Seq<char>) -> int {
    if t.len() > 0 && t[0] == '+' {
        digits_value(t.drop_first())
    } else {
        digits_value(t)
    }
}

/// The coordinate that a line of input stands for: once trimmed, it must be
/// a decimal number no greater than 2.
pub open spec fn coordinate_of(line: Seq<char>) -> Option<int> {
    let t = trimmed(line);
    if is_number(t) && number_value(t) <= 2 {
        Some(number_value(t))
    } else {
        None
    }
}

/// The message for a line that names no coordinate.
pub open spec fn invalid_message(prompt: Seq<char>) -> Seq<char> {
    "Invalid input for "@ + prompt + "!"@
}

fn space(c: char) -> (r: bool)
    ensures
        r == is_space(c),
{
    let u = c as u32;
    (0x09 <= u && u <= 0x0d) || u == 0x20 || u == 0x85 || u == 0xa0 || u == 0x1680 || (0x2000
        <= u && u <= 0x200a) || u == 0x2028 || u == 0x2029 || u == 0x202f || u == 0x205f || u
        == 0x3000
}

proof fn lemma_trim_start_step(s: Seq<char>, i: int)
    requires
        0 <= i < s.len(),
        is_space(s[i]),
    ensures
        trim_start(s.subrange(i, s.len() as int)) == trim_start(s.subrange(i + 1, s.len() as int)),
{
    assert(s.subrange(i, s.len() as int).drop_first() =~= s.subrange(i + 1, s.len() as int));
}

proof fn lemma_trim_end_step(s: Seq<char>, i: int, j: int)
    requires
        0 <= i < j <= s.len(),
        is_space(s[j - 1]),
    ensures
        trim_end(s.subrange(i, j)) == trim_end(s.subrange(i, j - 1)),
{
    assert(s.subrange(i, j).drop_last() =~= s.subrange(i, j - 1));
}

proof fn lemma_digits_value_step(d: Seq<char>, k: int)
    requires
        0 <= k < d.len(),
    ensures
        digits_value(d.subrange(0, k + 1)) == digits_value(d.subrange(0, k)) * 10 + (d[k] as int
            - '0' as int),
{
    assert(d.subrange(0, k + 1).drop_last() =~= d.subrange(0, k));
}

proof fn lemma_digits_value_nonneg(d: Seq<char>)
    requires
        forall|i: int| 0 <= i < d.len() ==> is_digit(#[trigger] d[i]),
    ensures
        digits_value(d) >= 0,
    decreases d.len(),
{
    if d.len() > 0 {
        lemma_digits_value_nonneg(d.drop_last());
    }
}

/// Reads a coordinate from one line of input: the line, once trimmed, must
/// be a decimal number from 0 to 2. Any other line is refused with a message
/// that names `prompt`.
pub fn parse_coordinate(line: &str, prompt: &str) -> (r: Result<usize, String>)
    ensures
        r matches Ok(n) ==> n <= 2 && coordinate_of(line@) == Some(n as int),
        r matches Err(e) ==> coordinate_of(line@) is None && e@ == invalid_message(prompt@),
{
    let n = line.unicode_len();
    let ghost s = line@;
    let mut i: usize = 0;
    assert(s.subrange(0, n as int) =~= s);
    while i < n && space(line.get_char(i))
        invariant
            n == s.len(),
            s == line@,
            i <= n,
            trim_start(s) == trim_start(s.subrange(i as int, n as int)),
        decreases n - i,
    {
        proof {
            lemma_trim_start_step(s, i as int);
        }
        i += 1;
    }
    proof {
        assert(s.subrange(i as int, n as int) =~= s.subrange(i as int, n as int));
        if i < n {
            assert(s.subrange(i as int, n as int)[0] == s[i as int]);
        }
    }
    let mut j: usize = n;
    while j > i && space(line.get_char(j - 1))
        invariant
            n == s.len(),
            s == line@,
            i <= j <= n,
            trim_start(s) == s.subrange(i as int, n as int),
            trimmed(s) == trim_end(s.subrange(i as int, j as int)),
        decreases j - i,
    {
        proof {
            lemma_trim_end_step(s, i as int, j as int);
        }
        j -= 1;
    }
    let ghost t = s.subrange(i as int, j as int);
    proof {
        if j > i {
            assert(t.last() == s[j - 1]);
        }
        assert(trimmed(s) == t);
    }
    let mut k: usize = i;
    if k < j && line.get_char(k) == '+' {
        k += 1;
    }
    let ghost d = s.subrange(k as int, j as int);
    let ok_start = k < j;
    let mut value: usize = 0;
    let mut all_digits = true;
    let mut m: usize = k;
    while m < j
        invariant
            n == s.len(),
            s == line@,
            i <= k <= m <= j <= n,
            d == s.subrange(k as int, j as int),
            all_digits ==> forall|x: int| k <= x < m ==> is_digit(#[trigger] s[x]),
            !all_digits ==> exists|x: int| k <= x < m && !is_digit(#[trigger] s[x]),
            all_digits ==> value == if digits_value(d.subrange(0, m - k)) <= 2 {
                digits_value(d.subrange(0, m - k))
            } else {
                3
            },
        decreases j - m,
    {
        let c = line.get_char(m);
        if '0' <= c && c <= '9' {
            if all_digits {
                proof {
                    assert(d[m - k] == c);
                    lemma_digits_value_step(d, m - k);
                    lemma_digits_value_nonneg(d.subrange(0, m - k));
                }
                let dv = (c as u32 - '0' as u32) as usize;
                if value >= 3 {
                    value = 3;
                } else {
                    let next = value * 10 + dv;
                    value = if next > 2 { 3 } else { next };
                }
            }
        } else {
            all_digits = false;
        }
        m += 1;
    }
    proof {
        assert(d.subrange(0, (j - k) as int) =~= d);
        if k > i {
            assert(t.drop_first() =~= d);
        } else {
            assert(t =~= d);
        }
        if !all_digits {
            let x = choose|x: int| k <= x < j && !is_digit(#[trigger] s[x]);
            assert(!is_digit(d[x - k]));
        }
    }
    if ok_start && all_digits && value <= 2 {
        Ok(value)
    } else {
        proof {
            reveal_strlit("Invalid input for ");
            reveal_strlit("!");
        }
        let msg = String::from_str("Invalid input for ").concat(prompt).concat("!");
        Err(msg)
    }
}

} // verus!
