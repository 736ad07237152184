//! Color notation conversion between hex (`#RGB` / `#RRGGBB`) and
//! RGB (`rgb(r, g, b)` and friends).
//!
//! A hex color is `#` followed by exactly 3 or 6 hexadecimal digits,
//! case-insensitive.  A 3-digit color abbreviates the 6-digit form in
//! which each digit is doubled.

use vstd::prelude::*;

verus! {

// ---------------------------------------------------------------------------
// Hexadecimal digits
// ---------------------------------------------------------------------------
/// A character is an ASCII hexadecimal digit.
pub open spec fn is_hex_digit(c: char) -> bool {
    ('0' <= c && c <= '9') || ('a' <= c && c <= 'f') || ('A' <= c && c <= 'F')
}

/// Numeric value of an ASCII hexadecimal digit.
pub open spec fn hex_digit_val(c: char) -> int {
    if '0' <= c && c <= '9' {
        c as int - '0' as int
    } else if 'a' <= c && c <= 'f' {
        c as int - 'a' as int + 10
    } else {
        c as int - 'A' as int + 10
    }
}

/// The uppercase hexadecimal digit for a value in `[0, 15]`.
pub open spec fn hex_digit_char(d: int) -> char {
    if d == 0 {
        '0'
    } else if d == 1 {
        '1'
    } else if d == 2 {
        '2'
    } else if d == 3 {
        '3'
    } else if d == 4 {
        '4'
    } else if d == 5 {
        '5'
    } else if d == 6 {
        '6'
    } else if d == 7 {
        '7'
    } else if d == 8 {
        '8'
    } else if d == 9 {
        '9'
    } else if d == 10 {
        'A'
    } else if d == 11 {
        'B'
    } else if d == 12 {
        'C'
    } else if d == 13 {
        'D'
    } else if d == 14 {
        'E'
    } else {
        'F'
    }
}

// ---------------------------------------------------------------------------
// The hex color notation
// ---------------------------------------------------------------------------
/// A string is a valid hex color: `#` followed by exactly 3 or 6
/// hexadecimal digits.
pub open spec fn is_hex_color(s: Seq<char>) -> bool {
    &&& (s.len() == 4 || s.len() == 7)
    &&& s[0] == '#'
    &&& forall|i: int| 1 <= i < s.len() ==> is_hex_digit(#[trigger] s[i])
}

/// The red, green and blue values named by a hex color.  In the 3-digit
/// form each digit is doubled, so a digit of value `v` names `17 * v`.
pub open spec fn hex_color_rgb(s: Seq<char>) -> (int, int, int)
    recommends
        is_hex_color(s),
{
    if s.len() == 4 {
        (17 * hex_digit_val(s[1]), 17 * hex_digit_val(s[2]), 17 * hex_digit_val(s[3]))
    } else {
        (
            16 * hex_digit_val(s[1]) + hex_digit_val(s[2]),
            16 * hex_digit_val(s[3]) + hex_digit_val(s[4]),
            16 * hex_digit_val(s[5]) + hex_digit_val(s[6]),
        )
    }
}

/// The 6-digit hex color that doubles each digit of a 3-digit one.
pub open spec fn expand_hex(s: Seq<char>) -> Seq<char>
    recommends
        is_hex_color(s),
        s.len() == 4,
{
    seq!['#', s[1], s[1], s[2], s[2], s[3], s[3]]
}

/// The uppercase `#RRGGBB` string for the components `(r, g, b)`.
pub open spec fn hex_string(r: int, g: int, b: int) -> Seq<char>
    recommends
        0 <= r <= 255,
        0 <= g <= 255,
        0 <= b <= 255,
{
    seq![
        '#',
        hex_digit_char(r / 16),
        hex_digit_char(r % 16),
        hex_digit_char(g / 16),
        hex_digit_char(g % 16),
        hex_digit_char(b / 16),
        hex_digit_char(b % 16),
    ]
}

// ---------------------------------------------------------------------------
// Decimal formatting
// ---------------------------------------------------------------------------
/// The decimal digit for a value in `[0, 9]`.
pub open spec fn dec_digit_char(d: int) -> char {
    if d == 0 {
        '0'
    } else if d == 1 {
        '1'
    } else if d == 2 {
        '2'
    } else if d == 3 {
        '3'
    } else if d == 4 {
        '4'
    } else if d == 5 {
        '5'
    } else if d == 6 {
        '6'
    } else if d == 7 {
        '7'
    } else if d == 8 {
        '8'
    } else {
        '9'
    }
}

/// The decimal representation of a nonnegative integer, without
/// leading zeros.
pub open spec fn dec_str(n: int) -> Seq<char>
    recommends
        n >= 0,
    decreases n,
{
    if n < 10 {
        seq![dec_digit_char(n)]
    } else {
        dec_str(n / 10).push(dec_digit_char(n % 10))
    }
}

/// The `rgb(r, g, b)` string for the components `(r, g, b)`.
pub open spec fn rgb_string(r: int, g: int, b: int) -> Seq<char>
    recommends
        0 <= r <= 255,
        0 <= g <= 255,
        0 <= b <= 255,
{
    seq!['r', 'g', 'b', '('] + dec_str(r) + seq![',', ' '] + dec_str(g) + seq![',', ' '] + dec_str(
        b,
    ) + seq![')']
}

// ---------------------------------------------------------------------------
// The RGB notation
//
// The accepted forms are `rgb(r, g, b)`, `rgb(r g b)`, `r, g, b` and
// `r g b`: an optional `rgb(` prefix, an optional single space, three
// components separated either all by commas (each optionally followed
// by one space) or all by single spaces, and an optional `)` suffix.
// A component is a run of 1 to 3 decimal digits with value at most 255.
// ---------------------------------------------------------------------------
/// A character is an ASCII decimal digit.
pub open spec fn is_dec_digit(c: char) -> bool {
    '0' <= c && c <= '9'
}

/// Numeric value of an ASCII decimal digit.
pub open spec fn dec_digit_val(c: char) -> int {
    c as int - '0' as int
}

/// Length of the maximal run of decimal digits at the front of `s`.
pub open spec fn digit_run_len(s: Seq<char>) -> int
    decreases s.len(),
{
    if s.len() == 0 || !is_dec_digit(s[0]) {
        0
    } else {
        1 + digit_run_len(s.skip(1))
    }
}

/// Numeric value of an all-digit string.
pub open spec fn dec_val(s: Seq<char>) -> int
    decreases s.len(),
{
    if s.len() == 0 {
        0
    } else {
        10 * dec_val(s.drop_last()) + dec_digit_val(s.last())
    }
}

/// Takes one RGB component off the front of `s`: the maximal digit run,
/// which must be 1 to 3 digits long and name a value at most 255.
pub open spec fn take_component(s: Seq<char>) -> Option<(int, Seq<char>)> {
    let l = digit_run_len(s);
    if 1 <= l <= 3 && dec_val(s.take(l)) <= 255 {
        Some((dec_val(s.take(l)), s.skip(l)))
    } else {
        None
    }
}

/// Takes a comma separator (a comma, optionally followed by one space)
/// off the front of `s`.
pub open spec fn take_comma_sep(s: Seq<char>) -> Option<Seq<char>> {
    if s.len() >= 2 && s[0] == ',' && s[1] == ' ' {
        Some(s.skip(2))
    } else if s.len() >= 1 && s[0] == ',' {
        Some(s.skip(1))
    } else {
        None
    }
}

/// Takes a single-space separator off the front of `s`.
pub open spec fn take_space_sep(s: Seq<char>) -> Option<Seq<char>> {
    if s.len() >= 1 && s[0] == ' ' {
        Some(s.skip(1))
    } else {
        None
    }
}

/// Takes the separator of the chosen style off the front of `s`.
pub open spec fn take_sep(s: Seq<char>, comma: bool) -> Option<Seq<char>> {
    if comma {
        take_comma_sep(s)
    } else {
        take_space_sep(s)
    }
}

/// Parses `sep component sep component` to the end of `s`, both
/// separators in the style chosen by `comma`.
pub open spec fn rgb_tail_values(s: Seq<char>, comma: bool) -> Option<(int, int)> {
    match take_sep(s, comma) {
        None => None,
        Some(s1) => match take_component(s1) {
            None => None,
            Some((g, s2)) => match take_sep(s2, comma) {
                None => None,
                Some(s3) => match take_component(s3) {
                    None => None,
                    Some((b, s4)) => if s4.len() == 0 {
                        Some((g, b))
                    } else {
                        None
                    },
                },
            },
        },
    }
}

/// Parses three components out of a core string (prefix and suffix
/// already stripped).  The first separator decides the style: a comma
/// makes all separators commas, anything else must be single spaces.
pub open spec fn rgb_core_values(s: Seq<char>) -> Option<(int, int, int)> {
    match take_component(s) {
        None => None,
        Some((r, s1)) => {
            let comma = s1.len() >= 1 && s1[0] == ',';
            match rgb_tail_values(s1, comma) {
                None => None,
                Some((g, b)) => Some((r, g, b)),
            }
        },
    }
}

/// Strips an `rgb(` prefix, if present.
pub open spec fn strip_rgb_open(s: Seq<char>) -> Seq<char> {
    if s.len() >= 4 && s.subrange(0, 4) == seq!['r', 'g', 'b', '('] {
        s.skip(4)
    } else {
        s
    }
}

/// Strips one leading space, if present.
pub open spec fn strip_leading_space(s: Seq<char>) -> Seq<char> {
    if s.len() >= 1 && s[0] == ' ' {
        s.skip(1)
    } else {
        s
    }
}

/// Strips a `)` suffix, if present.
pub open spec fn strip_close_paren(s: Seq<char>) -> Seq<char> {
    if s.len() >= 1 && s.last() == ')' {
        s.take(s.len() - 1)
    } else {
        s
    }
}

/// The components named by an RGB string, or `None` when the string is
/// not in a recognized RGB form.
pub open spec fn rgb_values(s: Seq<char>) -> Option<(int, int, int)> {
    rgb_core_values(strip_close_paren(strip_leading_space(strip_rgb_open(s))))
}

/// A string is in a recognized RGB form.
pub open spec fn is_rgb_color(s: Seq<char>) -> bool {
    rgb_values(s) is Some
}

// ---------------------------------------------------------------------------
// Executable digit helpers
// ---------------------------------------------------------------------------
fn is_hex_digit_exec(c: char) -> (r: bool)
    ensures
        r == is_hex_digit(c),
{
    ('0' <= c && c <= '9') || ('a' <= c && c <= 'f') || ('A' <= c && c <= 'F')
}

fn hex_digit_value(c: char) -> (v: u8)
    requires
        is_hex_digit(c),
    ensures
        v as int == hex_digit_val(c),
        v < 16,
{
    if '0' <= c && c <= '9' {
        (c as u8) - 48
    } else if 'a' <= c && c <= 'f' {
        (c as u8) - 97 + 10
    } else {
        (c as u8) - 65 + 10
    }
}

fn dec_digit_str(d: u8) -> (r: &'static str)
    requires
        d < 10,
    ensures
        r@ =~= seq![dec_digit_char(d as int)],
{
    proof {
        reveal_strlit("0");
        reveal_strlit("1");
        reveal_strlit("2");
        reveal_strlit("3");
        reveal_strlit("4");
        reveal_strlit("5");
        reveal_strlit("6");
        reveal_strlit("7");
        reveal_strlit("8");
        reveal_strlit("9");
    }
    if d == 0 {
        "0"
    } else if d == 1 {
        "1"
    } else if d == 2 {
        "2"
    } else if d == 3 {
        "3"
    } else if d == 4 {
        "4"
    } else if d == 5 {
        "5"
    } else if d == 6 {
        "6"
    } else if d == 7 {
        "7"
    } else if d == 8 {
        "8"
    } else {
        "9"
    }
}

fn hex_digit_str(d: u8) -> (r: &'static str)
    requires
        d < 16,
    ensures
        r@ =~= seq![hex_digit_char(d as int)],
{
    proof {
        reveal_strlit("A");
        reveal_strlit("B");
        reveal_strlit("C");
        reveal_strlit("D");
        reveal_strlit("E");
        reveal_strlit("F");
    }
    if d < 10 {
        let r = dec_digit_str(d);
        assert(dec_digit_char(d as int) == hex_digit_char(d as int));
        r
    } else if d == 10 {
        "A"
    } else if d == 11 {
        "B"
    } else if d == 12 {
        "C"
    } else if d == 13 {
        "D"
    } else if d == 14 {
        "E"
    } else {
        "F"
    }
}

/// Appends the decimal representation of `n` to `s`.
fn append_u8_dec(s: &mut String, n: u8)
    ensures
        final(s)@ == old(s)@ + dec_str(n as int),
{
    if n < 10 {
        s.append(dec_digit_str(n));
        assert(s@ =~= old(s)@ + dec_str(n as int));
    } else if n < 100 {
        let d1: u8 = n / 10;
        let d0: u8 = n % 10;
        s.append(dec_digit_str(d1));
        s.append(dec_digit_str(d0));
        assert(dec_str(n as int / 10) =~= seq![dec_digit_char(n as int / 10)]);
        assert(dec_str(n as int) =~= seq![
            dec_digit_char(n as int / 10),
            dec_digit_char(n as int % 10),
        ]);
        assert(s@ =~= old(s)@ + dec_str(n as int));
    } else {
        let d2: u8 = n / 100;
        let d1: u8 = (n / 10) % 10;
        let d0: u8 = n % 10;
        s.append(dec_digit_str(d2));
        s.append(dec_digit_str(d1));
        s.append(dec_digit_str(d0));
        assert(n as int / 10 / 10 == n as int / 100) by (nonlinear_arith);
        assert(dec_str(n as int / 100) =~= seq![dec_digit_char(n as int / 100)]);
        assert(dec_str(n as int / 10) =~= seq![
            dec_digit_char(n as int / 100),
            dec_digit_char(n as int / 10 % 10),
        ]);
        assert(dec_str(n as int) =~= seq![
            dec_digit_char(n as int / 100),
            dec_digit_char(n as int / 10 % 10),
            dec_digit_char(n as int % 10),
        ]);
        assert(s@ =~= old(s)@ + dec_str(n as int));
    }
}

// ---------------------------------------------------------------------------
// Hex recognition and conversion
// ---------------------------------------------------------------------------
/// Returns true when the provided string is in a valid hex format:
/// `#` followed by exactly 3 or 6 hexadecimal digits.
pub fn is_hex_value(color: &str) -> (r: bool)
    ensures
        r == is_hex_color(color@),
{
    let n = color.unicode_len();
    if n != 4 && n != 7 {
        return false;
    }
    if color.get_char(0) != '#' {
        return false;
    }
    let mut i: usize = 1;
    while i < n
        invariant
            1 <= i <= n,
            n == color@.len(),
            n == 4 || n == 7,
            color@[0] == '#',
            forall|j: int| 1 <= j < i ==> is_hex_digit(#[trigger] color@[j]),
        decreases n - i,
    {
        if !is_hex_digit_exec(color.get_char(i)) {
            return false;
        }
        i = i + 1;
    }
    true
}

/// Builds the `rgb(r, g, b)` string for the given components.
fn format_rgb(r: u8, g: u8, b: u8) -> (s: String)
    ensures
        s@ == rgb_string(r as int, g as int, b as int),
{
    let mut s = String::new();
    s.append("rgb(");
    append_u8_dec(&mut s, r);
    s.append(", ");
    append_u8_dec(&mut s, g);
    s.append(", ");
    append_u8_dec(&mut s, b);
    s.append(")");
    proof {
        reveal_strlit("rgb(");
        reveal_strlit(", ");
        reveal_strlit(")");
        assert(s@ =~= rgb_string(r as int, g as int, b as int));
    }
    s
}

/// Converts a hexadecimal color string to its RGB representation,
/// `rgb(r, g, b)`.  A 3-digit color is first expanded by doubling each
/// digit.
pub fn convert_hex_to_rgb(hex: &str) -> (res: String)
    requires
        is_hex_color(hex@),
    ensures
        res@ == rgb_string(
            hex_color_rgb(hex@).0,
            hex_color_rgb(hex@).1,
            hex_color_rgb(hex@).2,
        ),
{
    let n = hex.unicode_len();
    let (r, g, b): (u8, u8, u8) = if n == 4 {
        let d1 = hex_digit_value(hex.get_char(1));
        let d2 = hex_digit_value(hex.get_char(2));
        let d3 = hex_digit_value(hex.get_char(3));
        (17 * d1, 17 * d2, 17 * d3)
    } else {
        let r = 16 * hex_digit_value(hex.get_char(1)) + hex_digit_value(hex.get_char(2));
        let g = 16 * hex_digit_value(hex.get_char(3)) + hex_digit_value(hex.get_char(4));
        let b = 16 * hex_digit_value(hex.get_char(5)) + hex_digit_value(hex.get_char(6));
        (r, g, b)
    };
    format_rgb(r, g, b)
}

/// Builds the uppercase `#RRGGBB` string for the given components.
fn format_hex(r: u8, g: u8, b: u8) -> (s: String)
    ensures
        s@ == hex_string(r as int, g as int, b as int),
{
    let mut s = String::new();
    s.append("#");
    s.append(hex_digit_str(r / 16));
    s.append(hex_digit_str(r % 16));
    s.append(hex_digit_str(g / 16));
    s.append(hex_digit_str(g % 16));
    s.append(hex_digit_str(b / 16));
    s.append(hex_digit_str(b % 16));
    proof {
        reveal_strlit("#");
        assert(s@ =~= hex_string(r as int, g as int, b as int));
    }
    s
}

// ---------------------------------------------------------------------------
// Laws of the hex side
// ---------------------------------------------------------------------------
/// A 3-digit hex color names the same components as the 6-digit color
/// obtained by doubling each of its digits, so the two convert to the
/// same RGB string.
pub proof fn lemma_short_hex_expands(s: Seq<char>)
    requires
        is_hex_color(s),
        s.len() == 4,
    ensures
        is_hex_color(expand_hex(s)),
        hex_color_rgb(expand_hex(s)) == hex_color_rgb(s),
        rgb_string(hex_color_rgb(expand_hex(s)).0, hex_color_rgb(expand_hex(s)).1, hex_color_rgb(expand_hex(s)).2)
            == rgb_string(hex_color_rgb(s).0, hex_color_rgb(s).1, hex_color_rgb(s).2),
{
    let e = expand_hex(s);
    assert forall|i: int| 1 <= i < e.len() implies is_hex_digit(#[trigger] e[i]) by {
        assert(is_hex_digit(s[1]));
        assert(is_hex_digit(s[2]));
        assert(is_hex_digit(s[3]));
    }
}

// ---------------------------------------------------------------------------
// RGB recognition and conversion
// ---------------------------------------------------------------------------
pub(crate) fn is_dec_digit_exec(c: char) -> (r: bool)
    ensures
        r == is_dec_digit(c),
{
    '0' <= c && c <= '9'
}

fn dec_digit_value(c: char) -> (v: u8)
    requires
        is_dec_digit(c),
    ensures
        v as int == dec_digit_val(c),
        v < 10,
{
    (c as u8) - 48
}

/// A digit run's length is the position of the first non-digit.
proof fn lemma_digit_run_len(s: Seq<char>, k: int)
    requires
        0 <= k <= s.len(),
        forall|j: int| 0 <= j < k ==> is_dec_digit(#[trigger] s[j]),
        k == s.len() || !is_dec_digit(s[k]),
    ensures
        digit_run_len(s) == k,
    decreases k,
{
    if k == 0 {
    } else {
        assert(is_dec_digit(s[0]));
        lemma_digit_run_len(s.skip(1), k - 1);
    }
}

/// Counts the decimal digits at position `i` of `s`, up to `end`.
fn digit_run_from(s: &str, i: usize, end: usize) -> (l: usize)
    requires
        i <= end <= s@.len(),
    ensures
        l == digit_run_len(s@.subrange(i as int, end as int)),
        i + l <= end,
{
    let mut j: usize = i;
    while j < end
        invariant
            i <= j <= end <= s@.len(),
            forall|t: int| i <= t < j ==> is_dec_digit(#[trigger] s@[t]),
        decreases end - j,
    {
        if !is_dec_digit_exec(s.get_char(j)) {
            proof {
                let sub = s@.subrange(i as int, end as int);
                lemma_digit_run_len(sub, j - i);
            }
            return j - i;
        }
        j = j + 1;
    }
    proof {
        let sub = s@.subrange(i as int, end as int);
        lemma_digit_run_len(sub, end - i);
    }
    end - i
}

/// Parses one component at position `i` of `s`, reading no further
/// than `end`.  On success returns the value and the position just
/// after the digits.
fn parse_component_at(s: &str, i: usize, end: usize) -> (r: Option<(u8, usize)>)
    requires
        i <= end <= s@.len(),
    ensures
        match r {
            Some(p) => {
                &&& i < p.1 <= end
                &&& take_component(s@.subrange(i as int, end as int)) == Some(
                    (p.0 as int, s@.subrange(p.1 as int, end as int)),
                )
            },
            None => take_component(s@.subrange(i as int, end as int)) is None,
        },
{
    let ghost sub = s@.subrange(i as int, end as int);
    let l = digit_run_from(s, i, end);
    if l < 1 || l > 3 {
        return None;
    }
    let ghost t = sub.take(l as int);
    assert(t =~= s@.subrange(i as int, i + l as int));
    proof {
        // every char of the digit run is a digit
        assert forall|j: int| i <= j < i + l implies is_dec_digit(#[trigger] s@[j]) by {
            lemma_digit_run_digits(sub, l as int, j - i);
            assert(sub[j - i] == s@[j]);
        }
    }
    let d0 = dec_digit_value(s.get_char(i));
    let v: u16 = if l == 1 {
        proof {
            lemma_dec_val1(t);
        }
        d0 as u16
    } else if l == 2 {
        let d1 = dec_digit_value(s.get_char(i + 1));
        proof {
            lemma_dec_val2(t);
        }
        10 * (d0 as u16) + d1 as u16
    } else {
        let d1 = dec_digit_value(s.get_char(i + 1));
        let d2 = dec_digit_value(s.get_char(i + 2));
        proof {
            lemma_dec_val3(t);
        }
        100 * (d0 as u16) + 10 * (d1 as u16) + d2 as u16
    };
    assert(v as int == dec_val(t));
    if v > 255 {
        return None;
    }
    proof {
        assert(sub.skip(l as int) =~= s@.subrange(i + l as int, end as int));
    }
    Some(((v as u8), i + l))
}

/// `dec_val` of a one-digit string.
proof fn lemma_dec_val1(t: Seq<char>)
    requires
        t.len() == 1,
    ensures
        dec_val(t) == dec_digit_val(t[0]),
{
    assert(t.drop_last() =~= Seq::<char>::empty());
    assert(dec_val(t.drop_last()) == 0);
}

/// `dec_val` of a two-digit string.
proof fn lemma_dec_val2(t: Seq<char>)
    requires
        t.len() == 2,
    ensures
        dec_val(t) == 10 * dec_digit_val(t[0]) + dec_digit_val(t[1]),
{
    lemma_dec_val1(t.drop_last());
    assert(t.drop_last()[0] == t[0]);
}

/// `dec_val` of a three-digit string.
proof fn lemma_dec_val3(t: Seq<char>)
    requires
        t.len() == 3,
    ensures
        dec_val(t) == 100 * dec_digit_val(t[0]) + 10 * dec_digit_val(t[1]) + dec_digit_val(t[2]),
{
    lemma_dec_val2(t.drop_last());
    assert(t.drop_last()[0] == t[0]);
    assert(t.drop_last()[1] == t[1]);
}

/// Every position inside a digit run holds a digit.
proof fn lemma_digit_run_digits(s: Seq<char>, l: int, j: int)
    requires
        0 <= j < l <= digit_run_len(s),
        l <= s.len(),
    ensures
        is_dec_digit(s[j]),
    decreases j,
{
    if j == 0 {
        assert(digit_run_len(s) > 0);
        assert(is_dec_digit(s[0]));
    } else {
        assert(digit_run_len(s) > 0);
        assert(is_dec_digit(s[0]));
        lemma_digit_run_digits(s.skip(1), l - 1, j - 1);
        assert(s.skip(1)[j - 1] == s[j]);
    }
}

/// Parses a separator of the chosen style at position `i` of `s`.
fn parse_sep_at(s: &str, i: usize, end: usize, comma: bool) -> (r: Option<usize>)
    requires
        i <= end <= s@.len(),
    ensures
        match r {
            Some(j) => {
                &&& i < j <= end
                &&& take_sep(s@.subrange(i as int, end as int), comma) == Some(
                    s@.subrange(j as int, end as int),
                )
            },
            None => take_sep(s@.subrange(i as int, end as int), comma) is None,
        },
{
    let ghost sub = s@.subrange(i as int, end as int);
    if comma {
        if i < end && s.get_char(i) == ',' {
            if i + 1 < end && s.get_char(i + 1) == ' ' {
                proof {
                    assert(sub.skip(2) =~= s@.subrange(i + 2, end as int));
                }
                Some(i + 2)
            } else {
                proof {
                    assert(sub.skip(1) =~= s@.subrange(i + 1, end as int));
                }
                Some(i + 1)
            }
        } else {
            None
        }
    } else {
        if i < end && s.get_char(i) == ' ' {
            proof {
                assert(sub.skip(1) =~= s@.subrange(i + 1, end as int));
            }
            Some(i + 1)
        } else {
            None
        }
    }
}

/// Parses the three components of a core string (prefix and suffix
/// already stripped away) between positions `start` and `end`.
fn parse_core(color: &str, start: usize, end: usize) -> (r: Option<(u8, u8, u8)>)
    requires
        start <= end <= color@.len(),
    ensures
        match r {
            Some(t) => rgb_core_values(color@.subrange(start as int, end as int)) == Some(
                (t.0 as int, t.1 as int, t.2 as int),
            ),
            None => rgb_core_values(color@.subrange(start as int, end as int)) is None,
        },
{
    let first = parse_component_at(color, start, end);
    match first {
        None => None,
        Some((rv, p1)) => {
            let comma = p1 < end && color.get_char(p1) == ',';
            let ghost rest1 = color@.subrange(p1 as int, end as int);
            assert(comma == (rest1.len() >= 1 && rest1[0] == ','));
            match parse_sep_at(color, p1, end, comma) {
                None => None,
                Some(p2) => match parse_component_at(color, p2, end) {
                    None => None,
                    Some((gv, p3)) => match parse_sep_at(color, p3, end, comma) {
                        None => None,
                        Some(p4) => match parse_component_at(color, p4, end) {
                            None => None,
                            Some((bv, p5)) => {
                                if p5 == end {
                                    assert(color@.subrange(p5 as int, end as int).len() == 0);
                                    Some((rv, gv, bv))
                                } else {
                                    assert(color@.subrange(p5 as int, end as int).len() != 0);
                                    None
                                }
                            },
                        },
                    },
                },
            }
        },
    }
}

/// Parses an RGB string into its three components.  Returns `None`
/// when the string is not in a recognized RGB form.
pub fn parse_rgb(color: &str) -> (r: Option<(u8, u8, u8)>)
    ensures
        match r {
            Some(t) => rgb_values(color@) == Some((t.0 as int, t.1 as int, t.2 as int)),
            None => rgb_values(color@) is None,
        },
{
    let n = color.unicode_len();
    let has_open = n >= 4 && color.get_char(0) == 'r' && color.get_char(1) == 'g' && color.get_char(
        2,
    ) == 'b' && color.get_char(3) == '(';
    let i0: usize = if has_open {
        4
    } else {
        0
    };
    proof {
        if color@.len() >= 4 {
            assert(color@.subrange(0, 4)[0] == color@[0]);
            assert(color@.subrange(0, 4)[1] == color@[1]);
            assert(color@.subrange(0, 4)[2] == color@[2]);
            assert(color@.subrange(0, 4)[3] == color@[3]);
            if has_open {
                assert(color@.subrange(0, 4) =~= seq!['r', 'g', 'b', '(']);
            }
        }
        assert(color@.skip(4) =~= color@.subrange(4, color@.len() as int));
        assert(color@.skip(0) =~= color@);
        assert(color@.subrange(0, color@.len() as int) =~= color@);
        assert(strip_rgb_open(color@) =~= color@.subrange(i0 as int, n as int));
    }
    let ghost s1 = strip_rgb_open(color@);
    let has_space = i0 < n && color.get_char(i0) == ' ';
    let i1: usize = if has_space {
        i0 + 1
    } else {
        i0
    };
    proof {
        if has_space {
            assert(s1.len() >= 1 && s1[0] == ' ');
            assert(s1.skip(1) =~= color@.subrange(i0 + 1, n as int));
        }
        assert(strip_leading_space(s1) =~= color@.subrange(i1 as int, n as int));
    }
    let ghost s2 = strip_leading_space(s1);
    let has_close = i1 < n && color.get_char(n - 1) == ')';
    let end: usize = if has_close {
        n - 1
    } else {
        n
    };
    proof {
        if has_close {
            assert(s2.len() >= 1 && s2.last() == ')');
            assert(s2.take(s2.len() - 1) =~= color@.subrange(i1 as int, n - 1));
        }
        assert(strip_close_paren(s2) =~= color@.subrange(i1 as int, end as int));
    }
    parse_core(color, i1, end)
}

/// Returns true when the provided string is in a valid RGB format.
pub fn is_rgb_value(color: &str) -> (r: bool)
    ensures
        r == is_rgb_color(color@),
{
    parse_rgb(color).is_some()
}

/// Extracts the RGB components from a given RGB string.
pub fn get_rgb_components(rgb: &str) -> (r: (u8, u8, u8))
    requires
        is_rgb_color(rgb@),
    ensures
        rgb_values(rgb@) == Some((r.0 as int, r.1 as int, r.2 as int)),
{
    parse_rgb(rgb).unwrap()
}

/// Converts an RGB color string to its uppercase hexadecimal
/// representation `#RRGGBB`.
pub fn convert_rgb_to_hex(rgb: &str) -> (res: String)
    requires
        is_rgb_color(rgb@),
    ensures
        res@ == hex_string(
            rgb_values(rgb@).unwrap().0,
            rgb_values(rgb@).unwrap().1,
            rgb_values(rgb@).unwrap().2,
        ),
{
    let (r, g, b) = get_rgb_components(rgb);
    format_hex(r, g, b)
}

/// The digit values named by `hex_digit_char` invert `hex_digit_val`.
proof fn lemma_hex_digit_char_val(d: int)
    requires
        0 <= d < 16,
    ensures
        is_hex_digit(hex_digit_char(d)),
        hex_digit_val(hex_digit_char(d)) == d,
{
}

/// Converting components to an uppercase hex string and reading the
/// string back yields the same components (round trip).
pub proof fn lemma_rgb_hex_round_trip(r: u8, g: u8, b: u8)
    ensures
        is_hex_color(hex_string(r as int, g as int, b as int)),
        hex_color_rgb(hex_string(r as int, g as int, b as int)) == (r as int, g as int, b as int),
{
    let s = hex_string(r as int, g as int, b as int);
    lemma_hex_digit_char_val(r as int / 16);
    lemma_hex_digit_char_val(r as int % 16);
    lemma_hex_digit_char_val(g as int / 16);
    lemma_hex_digit_char_val(g as int % 16);
    lemma_hex_digit_char_val(b as int / 16);
    lemma_hex_digit_char_val(b as int % 16);
    assert forall|i: int| 1 <= i < s.len() implies is_hex_digit(#[trigger] s[i]) by {
    }
    assert(16 * (r as int / 16) + r as int % 16 == r as int);
    assert(16 * (g as int / 16) + g as int % 16 == g as int);
    assert(16 * (b as int / 16) + b as int % 16 == b as int);
}


/// Arguments of the color conversion command: the raw tokens that
/// together form one color specification.
#[derive(Debug)]
pub struct ColorXArgs {
    pub color: Vec<String>,
}

/// The parts joined by single spaces.
pub open spec fn join_spaced(parts: Seq<Seq<char>>) -> Seq<char>
    decreases parts.len(),
{
    if parts.len() == 0 {
        seq![]
    } else if parts.len() == 1 {
        parts[0]
    } else {
        join_spaced(parts.drop_last()) + seq![' '] + parts.last()
    }
}

/// Joins the argument tokens into one color string, with a single
/// space between adjacent tokens.
pub fn join_tokens(tokens: &Vec<String>) -> (r: String)
    ensures
        r@ == join_spaced(tokens@.map_values(|t: String| t@)),
{
    let ghost parts = tokens@.map_values(|t: String| t@);
    let mut r = String::new();
    assert(r@ =~= join_spaced(parts.take(0)));
    let mut i: usize = 0;
    while i < tokens.len()
        invariant
            i <= tokens.len(),
            parts == tokens@.map_values(|t: String| t@),
            parts.len() == tokens@.len(),
            r@ == join_spaced(parts.take(i as int)),
        decreases tokens.len() - i,
    {
        if i > 0 {
            s_append_space(&mut r);
        }
        r.append(tokens[i].as_str());
        proof {
            assert(parts.take(i + 1).drop_last() =~= parts.take(i as int));
            assert(parts.take(i + 1).last() == parts[i as int]);
            if i == 0 {
                assert(join_spaced(parts.take(1)) == parts[0]);
            }
        }
        i = i + 1;
    }
    proof {
        assert(parts.take(tokens@.len() as int) =~= parts);
    }
    r
}

/// Appends a single space.
fn s_append_space(s: &mut String)
    ensures
        final(s)@ == old(s)@ + seq![' '],
{
    s.append(" ");
    proof {
        reveal_strlit(" ");
        assert(s@ =~= old(s)@ + seq![' ']);
    }
}

/// What one color specification converts to.
#[derive(Debug)]
pub enum ColorConversion {
    /// The input was hex notation; holds the `rgb(r, g, b)` string.
    ToRgb(String),
    /// The input was RGB notation; holds the `#RRGGBB` string.
    ToHex(String),
    /// The input matched neither notation.
    Unrecognized,
}

/// Classifies a color string and converts it to the other notation.
/// Hex is checked first; the two notations cannot both match, but the
/// priority follows the classification order.
pub fn convert_color(color: &str) -> (r: ColorConversion)
    ensures
        (match r {
            ColorConversion::ToRgb(s) => is_hex_color(color@) && s@ == rgb_string(
                hex_color_rgb(color@).0,
                hex_color_rgb(color@).1,
                hex_color_rgb(color@).2,
            ),
            ColorConversion::ToHex(s) => !is_hex_color(color@) && is_rgb_color(color@) && s@
                == hex_string(
                rgb_values(color@).unwrap().0,
                rgb_values(color@).unwrap().1,
                rgb_values(color@).unwrap().2,
            ),
            ColorConversion::Unrecognized => !is_hex_color(color@) && !is_rgb_color(color@),
        }),
{
    if is_hex_value(color) {
        ColorConversion::ToRgb(convert_hex_to_rgb(color))
    } else if is_rgb_value(color) {
        ColorConversion::ToHex(convert_rgb_to_hex(color))
    } else {
        ColorConversion::Unrecognized
    }
}


/// The digit values named by `dec_digit_char` invert `dec_digit_val`.
proof fn lemma_dec_digit_char_val(d: int)
    requires
        0 <= d < 10,
    ensures
        is_dec_digit(dec_digit_char(d)),
        dec_digit_val(dec_digit_char(d)) == d,
{
}

/// For a value up to 255 the decimal representation is 1 to 3 digits
/// and names the value back.
proof fn lemma_dec_str_props(n: int)
    requires
        0 <= n <= 255,
    ensures
        1 <= dec_str(n).len() <= 3,
        forall|j: int| 0 <= j < dec_str(n).len() ==> is_dec_digit(#[trigger] dec_str(n)[j]),
        dec_val(dec_str(n)) == n,
{
    let s = dec_str(n);
    if n < 10 {
        lemma_dec_digit_char_val(n);
        lemma_dec_val1(s);
    } else if n < 100 {
        lemma_dec_digit_char_val(n / 10);
        lemma_dec_digit_char_val(n % 10);
        assert(dec_str(n / 10) =~= seq![dec_digit_char(n / 10)]);
        assert(s =~= seq![dec_digit_char(n / 10), dec_digit_char(n % 10)]);
        lemma_dec_val2(s);
    } else {
        assert(n / 10 / 10 == n / 100) by (nonlinear_arith);
        lemma_dec_digit_char_val(n / 100);
        lemma_dec_digit_char_val(n / 10 % 10);
        lemma_dec_digit_char_val(n % 10);
        assert(dec_str(n / 100) =~= seq![dec_digit_char(n / 100)]);
        assert(dec_str(n / 10) =~= seq![dec_digit_char(n / 100), dec_digit_char(n / 10 % 10)]);
        assert(s =~= seq![
            dec_digit_char(n / 100),
            dec_digit_char(n / 10 % 10),
            dec_digit_char(n % 10),
        ]);
        lemma_dec_val3(s);
        assert(dec_val(s) == 100 * (n / 100) + 10 * (n / 10 % 10) + n % 10);
        assert(100 * (n / 100) + 10 * (n / 10 % 10) + n % 10 == n) by (nonlinear_arith);
    }
}

/// A digit run followed by a non-digit is exactly the run.
proof fn lemma_digit_run_concat(a: Seq<char>, b: Seq<char>)
    requires
        forall|j: int| 0 <= j < a.len() ==> is_dec_digit(#[trigger] a[j]),
        b.len() == 0 || !is_dec_digit(b[0]),
    ensures
        digit_run_len(a + b) == a.len(),
{
    let s = a + b;
    assert forall|j: int| 0 <= j < a.len() implies is_dec_digit(#[trigger] s[j]) by {
        assert(s[j] == a[j]);
    }
    if b.len() > 0 {
        assert(s[a.len() as int] == b[0]);
    }
    lemma_digit_run_len(s, a.len() as int);
}

/// The formatted `rgb(r, g, b)` string is itself in a recognized RGB
/// form and parses back to the same components: formatting and
/// detection stay consistent.
#[verifier::rlimit(60)]
pub proof fn lemma_rgb_string_parses(r: int, g: int, b: int)
    requires
        0 <= r <= 255,
        0 <= g <= 255,
        0 <= b <= 255,
    ensures
        rgb_values(rgb_string(r, g, b)) == Some((r, g, b)),
{
    let s = rgb_string(r, g, b);
    lemma_dec_str_props(r);
    lemma_dec_str_props(g);
    lemma_dec_str_props(b);
    let core = dec_str(r) + seq![',', ' '] + dec_str(g) + seq![',', ' '] + dec_str(b);
    // stripping the fixed frame leaves the three components
    assert(s.subrange(0, 4) =~= seq!['r', 'g', 'b', '(']);
    assert(s.skip(4) =~= core + seq![')']);
    let s1 = strip_rgb_open(s);
    assert(s1 == core + seq![')']);
    assert(s1[0] == dec_str(r)[0]);
    assert(!is_dec_digit(' ')) by {
        assert(' ' as int == 32);
    }
    assert(strip_leading_space(s1) == s1);
    assert(s1.last() == ')');
    assert(strip_close_paren(s1) =~= core);
    // first component
    let tail1 = seq![',', ' '] + dec_str(g) + seq![',', ' '] + dec_str(b);
    assert(core =~= dec_str(r) + tail1);
    lemma_digit_run_concat(dec_str(r), tail1);
    assert(core.take(dec_str(r).len() as int) =~= dec_str(r));
    assert(core.skip(dec_str(r).len() as int) =~= tail1);
    assert(take_component(core) == Some((r, tail1)));
    assert(tail1[0] == ',');
    // first separator and second component
    let tail2 = dec_str(g) + (seq![',', ' '] + dec_str(b));
    assert(tail1[1] == ' ');
    assert(tail1.skip(2) =~= tail2);
    assert(take_comma_sep(tail1) == Some(tail2));
    let tail3 = seq![',', ' '] + dec_str(b);
    lemma_digit_run_concat(dec_str(g), tail3);
    assert(tail2.take(dec_str(g).len() as int) =~= dec_str(g));
    assert(tail2.skip(dec_str(g).len() as int) =~= tail3);
    assert(take_component(tail2) == Some((g, tail3)));
    // second separator and third component
    assert(tail3[0] == ',' && tail3[1] == ' ');
    assert(tail3.skip(2) =~= dec_str(b));
    assert(take_comma_sep(tail3) == Some(dec_str(b)));
    lemma_digit_run_concat(dec_str(b), seq![]);
    assert(dec_str(b) + seq![] =~= dec_str(b));
    assert(dec_str(b).take(dec_str(b).len() as int) =~= dec_str(b));
    assert(dec_str(b).skip(dec_str(b).len() as int) =~= Seq::<char>::empty());
    assert(take_component(dec_str(b)) == Some((b, Seq::<char>::empty())));
    assert(rgb_tail_values(tail1, true) == Some((g, b)));
    assert(rgb_core_values(core) == Some((r, g, b)));
}

/// A hex color is never also in a recognized RGB form: the two
/// notations are disjoint, so the classification order cannot hide a
/// match.
pub proof fn lemma_notations_disjoint(s: Seq<char>)
    requires
        is_hex_color(s),
    ensures
        !is_rgb_color(s),
{
    assert(s[0] == '#');
    if s.len() >= 4 && s.subrange(0, 4) == seq!['r', 'g', 'b', '('] {
        assert(s.subrange(0, 4)[0] == s[0]);
    }
    assert(strip_rgb_open(s) == s);
    assert(strip_leading_space(s) == s);
    assert(is_hex_digit(s.last()));
    assert(s.last() != ')') by {
        assert(')' as int == 41);
    }
    assert(strip_close_paren(s) == s);
    assert(!is_dec_digit('#')) by {
        assert('#' as int == 35);
    }
    assert(digit_run_len(s) == 0);
    assert(take_component(s) is None);
}

} // verus!
