use vstd::prelude::*;

verus! {

// The JSON grammar, as position-passing recognizers over a character
// sequence: each spec function takes the position where its production
// starts and yields the position just past it, or `None` where the text
// does not match. Every recursive step either moves strictly right in
// the text or steps from a delimiter-eating production into the value
// production, so the definitions terminate lexicographically. The
// positions handed onward are guarded to move right; a recognizer can
// only return a position past the characters it inspected, so the guards
// never exclude a match.

/// `c` is JSON insignificant whitespace.
pub open spec fn is_json_ws(c: char) -> bool {
    c == ' ' || c == '\t' || c == '\n' || c == '\r'
}

/// `c` is a decimal digit.
pub open spec fn is_digit(c: char) -> bool {
    48 <= c as int && c as int <= 57
}

/// `c` is a hexadecimal digit.
pub open spec fn is_hex_digit(c: char) -> bool {
    is_digit(c) || (97 <= c as int && c as int <= 102) || (65 <= c as int && c as int <= 70)
}

/// The first position at or after `i` that does not hold a digit.
pub open spec fn skip_digits(s: Seq<char>, i: int) -> int
    decreases s.len() - i when 0 <= i <= s.len()
{
    if i < s.len() && is_digit(s[i]) {
        skip_digits(s, i + 1)
    } else {
        i
    }
}

/// Only whitespace (or nothing) stands at and after `i`.
pub open spec fn ws_only_from(s: Seq<char>, i: int) -> bool
    decreases s.len() - i when 0 <= i <= s.len()
{
    if i < s.len() {
        is_json_ws(s[i]) && ws_only_from(s, i + 1)
    } else {
        true
    }
}

/// Recognizes the remainder of a JSON string, the opening quote already
/// consumed: content characters and escapes up to the closing quote.
pub open spec fn string_rest_end(s: Seq<char>, i: int) -> Option<int>
    decreases s.len() - i when 0 <= i <= s.len()
{
    if i >= s.len() {
        None
    } else if s[i] == '"' {
        Some(i + 1)
    } else if s[i] == '\\' {
        if i + 1 < s.len() {
            let e = s[i + 1];
            if e == '"' || e == '\\' || e == '/' || e == 'b' || e == 'f' || e == 'n' || e == 'r'
                || e == 't' {
                string_rest_end(s, i + 2)
            } else if e == 'u' {
                if i + 5 < s.len() && is_hex_digit(s[i + 2]) && is_hex_digit(s[i + 3])
                    && is_hex_digit(s[i + 4]) && is_hex_digit(s[i + 5]) {
                    string_rest_end(s, i + 6)
                } else {
                    None
                }
            } else {
                None
            }
        } else {
            None
        }
    } else if (s[i] as int) < 32 {
        None
    } else {
        string_rest_end(s, i + 1)
    }
}

/// Recognizes a JSON number starting at `i`.
pub open spec fn number_end(s: Seq<char>, i: int) -> Option<int> {
    if !(0 <= i < s.len()) {
        None
    } else {
        let j = if s[i] == '-' {
            i + 1
        } else {
            i
        };
        if !(j < s.len() && is_digit(s[j])) {
            None
        } else {
            let k = if s[j] == '0' {
                j + 1
            } else {
                skip_digits(s, j)
            };
            let k2 = if k < s.len() && s[k] == '.' {
                let d = skip_digits(s, k + 1);
                if d == k + 1 {
                    None
                } else {
                    Some(d)
                }
            } else {
                Some(k)
            };
            match k2 {
                None => None,
                Some(k2v) => {
                    if k2v < s.len() && (s[k2v] == 'e' || s[k2v] == 'E') {
                        let m = if k2v + 1 < s.len() && (s[k2v + 1] == '+' || s[k2v + 1] == '-') {
                            k2v + 2
                        } else {
                            k2v + 1
                        };
                        let d = skip_digits(s, m);
                        if d == m {
                            None
                        } else {
                            Some(d)
                        }
                    } else {
                        Some(k2v)
                    }
                },
            }
        }
    }
}

/// Recognizes one JSON value starting exactly at `i`.
pub open spec fn value_end(s: Seq<char>, i: int) -> Option<int>
    decreases s.len() - i, 0int when 0 <= i <= s.len()
{
    if i >= s.len() {
        None
    } else if s[i] == '{' {
        object_rest_end(s, i + 1)
    } else if s[i] == '[' {
        array_rest_end(s, i + 1)
    } else if s[i] == '"' {
        string_rest_end(s, i + 1)
    } else if s[i] == 't' {
        if i + 3 < s.len() && s[i + 1] == 'r' && s[i + 2] == 'u' && s[i + 3] == 'e' {
            Some(i + 4)
        } else {
            None
        }
    } else if s[i] == 'f' {
        if i + 4 < s.len() && s[i + 1] == 'a' && s[i + 2] == 'l' && s[i + 3] == 's' && s[i + 4]
            == 'e' {
            Some(i + 5)
        } else {
            None
        }
    } else if s[i] == 'n' {
        if i + 3 < s.len() && s[i + 1] == 'u' && s[i + 2] == 'l' && s[i + 3] == 'l' {
            Some(i + 4)
        } else {
            None
        }
    } else {
        number_end(s, i)
    }
}

/// Recognizes the remainder of an object, the `{` already consumed:
/// whitespace, then `}` or the first member's key.
pub open spec fn object_rest_end(s: Seq<char>, i: int) -> Option<int>
    decreases s.len() - i, 1int when 0 <= i <= s.len()
{
    if i >= s.len() {
        None
    } else if is_json_ws(s[i]) {
        object_rest_end(s, i + 1)
    } else if s[i] == '}' {
        Some(i + 1)
    } else if s[i] == '"' {
        match string_rest_end(s, i + 1) {
            Some(se) => if i < se <= s.len() {
                member_colon_end(s, se)
            } else {
                None
            },
            None => None,
        }
    } else {
        None
    }
}

/// Recognizes a member's `:` (with whitespace before it) and what
/// follows, the key already consumed.
pub open spec fn member_colon_end(s: Seq<char>, i: int) -> Option<int>
    decreases s.len() - i, 1int when 0 <= i <= s.len()
{
    if i >= s.len() {
        None
    } else if is_json_ws(s[i]) {
        member_colon_end(s, i + 1)
    } else if s[i] == ':' {
        member_value_end(s, i + 1)
    } else {
        None
    }
}

/// Recognizes a member's value (with whitespace before it) and the rest
/// of the object.
pub open spec fn member_value_end(s: Seq<char>, i: int) -> Option<int>
    decreases s.len() - i, 1int when 0 <= i <= s.len()
{
    if i >= s.len() {
        None
    } else if is_json_ws(s[i]) {
        member_value_end(s, i + 1)
    } else {
        match value_end(s, i) {
            Some(ve) => if i < ve <= s.len() {
                object_tail_end(s, ve)
            } else {
                None
            },
            None => None,
        }
    }
}

/// Recognizes what follows a member: whitespace, then `}` or `,` and the
/// next member's key.
pub open spec fn object_tail_end(s: Seq<char>, i: int) -> Option<int>
    decreases s.len() - i, 1int when 0 <= i <= s.len()
{
    if i >= s.len() {
        None
    } else if is_json_ws(s[i]) {
        object_tail_end(s, i + 1)
    } else if s[i] == '}' {
        Some(i + 1)
    } else if s[i] == ',' {
        object_key_end(s, i + 1)
    } else {
        None
    }
}

/// Recognizes the next member's key (with whitespace before it) and what
/// follows it.
pub open spec fn object_key_end(s: Seq<char>, i: int) -> Option<int>
    decreases s.len() - i, 1int when 0 <= i <= s.len()
{
    if i >= s.len() {
        None
    } else if is_json_ws(s[i]) {
        object_key_end(s, i + 1)
    } else if s[i] == '"' {
        match string_rest_end(s, i + 1) {
            Some(se) => if i < se <= s.len() {
                member_colon_end(s, se)
            } else {
                None
            },
            None => None,
        }
    } else {
        None
    }
}

/// Recognizes the remainder of an array, the `[` already consumed:
/// whitespace, then `]` or the first element.
pub open spec fn array_rest_end(s: Seq<char>, i: int) -> Option<int>
    decreases s.len() - i, 1int when 0 <= i <= s.len()
{
    if i >= s.len() {
        None
    } else if is_json_ws(s[i]) {
        array_rest_end(s, i + 1)
    } else if s[i] == ']' {
        Some(i + 1)
    } else {
        match value_end(s, i) {
            Some(ve) => if i < ve <= s.len() {
                array_tail_end(s, ve)
            } else {
                None
            },
            None => None,
        }
    }
}

/// Recognizes what follows an element: whitespace, then `]` or `,` and
/// the next element.
pub open spec fn array_tail_end(s: Seq<char>, i: int) -> Option<int>
    decreases s.len() - i, 1int when 0 <= i <= s.len()
{
    if i >= s.len() {
        None
    } else if is_json_ws(s[i]) {
        array_tail_end(s, i + 1)
    } else if s[i] == ']' {
        Some(i + 1)
    } else if s[i] == ',' {
        array_elem_end(s, i + 1)
    } else {
        None
    }
}

/// Recognizes the next element (with whitespace before it) and what
/// follows it.
pub open spec fn array_elem_end(s: Seq<char>, i: int) -> Option<int>
    decreases s.len() - i, 1int when 0 <= i <= s.len()
{
    if i >= s.len() {
        None
    } else if is_json_ws(s[i]) {
        array_elem_end(s, i + 1)
    } else {
        match value_end(s, i) {
            Some(ve) => if i < ve <= s.len() {
                array_tail_end(s, ve)
            } else {
                None
            },
            None => None,
        }
    }
}

/// Recognizes a whole JSON text from `i`: whitespace, one value, then
/// only whitespace to the end.
pub open spec fn text_from(s: Seq<char>, i: int) -> bool
    decreases s.len() - i, 1int when 0 <= i <= s.len()
{
    if i >= s.len() {
        false
    } else if is_json_ws(s[i]) {
        text_from(s, i + 1)
    } else {
        match value_end(s, i) {
            Some(ve) => 0 <= ve <= s.len() && ws_only_from(s, ve),
            None => false,
        }
    }
}

/// `s` is a syntactically valid JSON text: one value, surrounded only by
/// whitespace.
pub open spec fn is_valid_json(s: Seq<char>) -> bool {
    text_from(s, 0)
}


/// The position an exec recognizer returns, as the spec sees it.
pub open spec fn opt_pos(r: Option<usize>) -> Option<int> {
    match r {
        Some(u) => Some(u as int),
        None => None,
    }
}

fn e_is_json_ws(c: char) -> (r: bool)
    ensures
        r == is_json_ws(c),
{
    c == ' ' || c == '\t' || c == '\n' || c == '\r'
}

fn e_is_digit(c: char) -> (r: bool)
    ensures
        r == is_digit(c),
{
    let x: u32 = c as u32;
    x >= 48 && x <= 57
}

fn e_is_hex_digit(c: char) -> (r: bool)
    ensures
        r == is_hex_digit(c),
{
    let x: u32 = c as u32;
    (x >= 48 && x <= 57) || (x >= 97 && x <= 102) || (x >= 65 && x <= 70)
}

fn e_skip_digits(s: &str, i: usize) -> (r: usize)
    requires
        i <= s@.len(),
    ensures
        r as int == skip_digits(s@, i as int),
        i <= r <= s@.len(),
{
    let n = s.unicode_len();
    let mut j: usize = i;
    while j < n && e_is_digit(s.get_char(j))
        invariant
            n == s@.len(),
            i <= j <= n,
            skip_digits(s@, i as int) == skip_digits(s@, j as int),
        decreases n - j,
    {
        j = j + 1;
    }
    j
}

fn e_ws_only_from(s: &str, i: usize) -> (r: bool)
    requires
        i <= s@.len(),
    ensures
        r == ws_only_from(s@, i as int),
{
    let n = s.unicode_len();
    let mut j: usize = i;
    while j < n && e_is_json_ws(s.get_char(j))
        invariant
            n == s@.len(),
            i <= j <= n,
            ws_only_from(s@, i as int) == ws_only_from(s@, j as int),
        decreases n - j,
    {
        j = j + 1;
    }
    j == n
}

fn e_string_rest(s: &str, i: usize) -> (r: Option<usize>)
    requires
        i <= s@.len(),
    ensures
        opt_pos(r) == string_rest_end(s@, i as int),
    decreases s@.len() - i,
{
    let n = s.unicode_len();
    if i >= n {
        return None;
    }
    let c = s.get_char(i);
    if c == '"' {
        Some(i + 1)
    } else if c == '\\' {
        if n - i > 1 {
            let e = s.get_char(i + 1);
            if e == '"' || e == '\\' || e == '/' || e == 'b' || e == 'f' || e == 'n' || e == 'r'
                || e == 't' {
                e_string_rest(s, i + 2)
            } else if e == 'u' {
                if n - i > 5 && e_is_hex_digit(s.get_char(i + 2)) && e_is_hex_digit(
                    s.get_char(i + 3),
                ) && e_is_hex_digit(s.get_char(i + 4)) && e_is_hex_digit(s.get_char(i + 5)) {
                    e_string_rest(s, i + 6)
                } else {
                    None
                }
            } else {
                None
            }
        } else {
            None
        }
    } else if (c as u32) < 32 {
        None
    } else {
        e_string_rest(s, i + 1)
    }
}

fn e_number(s: &str, i: usize) -> (r: Option<usize>)
    requires
        i <= s@.len(),
    ensures
        opt_pos(r) == number_end(s@, i as int),
{
    let n = s.unicode_len();
    if i >= n {
        return None;
    }
    let j = if s.get_char(i) == '-' {
        i + 1
    } else {
        i
    };
    if !(j < n && e_is_digit(s.get_char(j))) {
        return None;
    }
    let k = if s.get_char(j) == '0' {
        j + 1
    } else {
        e_skip_digits(s, j)
    };
    let k2: Option<usize> = if k < n && s.get_char(k) == '.' {
        let d = e_skip_digits(s, k + 1);
        if d == k + 1 {
            None
        } else {
            Some(d)
        }
    } else {
        Some(k)
    };
    match k2 {
        None => None,
        Some(k2v) => {
            if k2v < n && (s.get_char(k2v) == 'e' || s.get_char(k2v) == 'E') {
                let m = if n - k2v > 1 && (s.get_char(k2v + 1) == '+' || s.get_char(k2v + 1)
                    == '-') {
                    k2v + 2
                } else {
                    k2v + 1
                };
                let d = e_skip_digits(s, m);
                if d == m {
                    None
                } else {
                    Some(d)
                }
            } else {
                Some(k2v)
            }
        },
    }
}

fn e_value(s: &str, i: usize) -> (r: Option<usize>)
    requires
        i <= s@.len(),
    ensures
        opt_pos(r) == value_end(s@, i as int),
    decreases s@.len() - i, 0int,
{
    let n = s.unicode_len();
    if i >= n {
        return None;
    }
    let c = s.get_char(i);
    if c == '{' {
        e_object_rest(s, i + 1)
    } else if c == '[' {
        e_array_rest(s, i + 1)
    } else if c == '"' {
        e_string_rest(s, i + 1)
    } else if c == 't' {
        if n - i > 3 && s.get_char(i + 1) == 'r' && s.get_char(i + 2) == 'u' && s.get_char(i + 3)
            == 'e' {
            Some(i + 4)
        } else {
            None
        }
    } else if c == 'f' {
        if n - i > 4 && s.get_char(i + 1) == 'a' && s.get_char(i + 2) == 'l' && s.get_char(i + 3)
            == 's' && s.get_char(i + 4) == 'e' {
            Some(i + 5)
        } else {
            None
        }
    } else if c == 'n' {
        if n - i > 3 && s.get_char(i + 1) == 'u' && s.get_char(i + 2) == 'l' && s.get_char(i + 3)
            == 'l' {
            Some(i + 4)
        } else {
            None
        }
    } else {
        e_number(s, i)
    }
}

fn e_object_rest(s: &str, i: usize) -> (r: Option<usize>)
    requires
        i <= s@.len(),
    ensures
        opt_pos(r) == object_rest_end(s@, i as int),
    decreases s@.len() - i, 1int,
{
    let n = s.unicode_len();
    if i >= n {
        return None;
    }
    let c = s.get_char(i);
    if e_is_json_ws(c) {
        e_object_rest(s, i + 1)
    } else if c == '}' {
        Some(i + 1)
    } else if c == '"' {
        match e_string_rest(s, i + 1) {
            Some(se) => if i < se && se <= n {
                e_member_colon(s, se)
            } else {
                None
            },
            None => None,
        }
    } else {
        None
    }
}

fn e_member_colon(s: &str, i: usize) -> (r: Option<usize>)
    requires
        i <= s@.len(),
    ensures
        opt_pos(r) == member_colon_end(s@, i as int),
    decreases s@.len() - i, 1int,
{
    let n = s.unicode_len();
    if i >= n {
        return None;
    }
    let c = s.get_char(i);
    if e_is_json_ws(c) {
        e_member_colon(s, i + 1)
    } else if c == ':' {
        e_member_value(s, i + 1)
    } else {
        None
    }
}

fn e_member_value(s: &str, i: usize) -> (r: Option<usize>)
    requires
        i <= s@.len(),
    ensures
        opt_pos(r) == member_value_end(s@, i as int),
    decreases s@.len() - i, 1int,
{
    let n = s.unicode_len();
    if i >= n {
        return None;
    }
    if e_is_json_ws(s.get_char(i)) {
        e_member_value(s, i + 1)
    } else {
        match e_value(s, i) {
            Some(ve) => if i < ve && ve <= n {
                e_object_tail(s, ve)
            } else {
                None
            },
            None => None,
        }
    }
}

fn e_object_tail(s: &str, i: usize) -> (r: Option<usize>)
    requires
        i <= s@.len(),
    ensures
        opt_pos(r) == object_tail_end(s@, i as int),
    decreases s@.len() - i, 1int,
{
    let n = s.unicode_len();
    if i >= n {
        return None;
    }
    let c = s.get_char(i);
    if e_is_json_ws(c) {
        e_object_tail(s, i + 1)
    } else if c == '}' {
        Some(i + 1)
    } else if c == ',' {
        e_object_key(s, i + 1)
    } else {
        None
    }
}

fn e_object_key(s: &str, i: usize) -> (r: Option<usize>)
    requires
        i <= s@.len(),
    ensures
        opt_pos(r) == object_key_end(s@, i as int),
    decreases s@.len() - i, 1int,
{
    let n = s.unicode_len();
    if i >= n {
        return None;
    }
    let c = s.get_char(i);
    if e_is_json_ws(c) {
        e_object_key(s, i + 1)
    } else if c == '"' {
        match e_string_rest(s, i + 1) {
            Some(se) => if i < se && se <= n {
                e_member_colon(s, se)
            } else {
                None
            },
            None => None,
        }
    } else {
        None
    }
}

fn e_array_rest(s: &str, i: usize) -> (r: Option<usize>)
    requires
        i <= s@.len(),
    ensures
        opt_pos(r) == array_rest_end(s@, i as int),
    decreases s@.len() - i, 1int,
{
    let n = s.unicode_len();
    if i >= n {
        return None;
    }
    let c = s.get_char(i);
    if e_is_json_ws(c) {
        e_array_rest(s, i + 1)
    } else if c == ']' {
        Some(i + 1)
    } else {
        match e_value(s, i) {
            Some(ve) => if i < ve && ve <= n {
                e_array_tail(s, ve)
            } else {
                None
            },
            None => None,
        }
    }
}

fn e_array_tail(s: &str, i: usize) -> (r: Option<usize>)
    requires
        i <= s@.len(),
    ensures
        opt_pos(r) == array_tail_end(s@, i as int),
    decreases s@.len() - i, 1int,
{
    let n = s.unicode_len();
    if i >= n {
        return None;
    }
    let c = s.get_char(i);
    if e_is_json_ws(c) {
        e_array_tail(s, i + 1)
    } else if c == ']' {
        Some(i + 1)
    } else if c == ',' {
        e_array_elem(s, i + 1)
    } else {
        None
    }
}

fn e_array_elem(s: &str, i: usize) -> (r: Option<usize>)
    requires
        i <= s@.len(),
    ensures
        opt_pos(r) == array_elem_end(s@, i as int),
    decreases s@.len() - i, 1int,
{
    let n = s.unicode_len();
    if i >= n {
        return None;
    }
    if e_is_json_ws(s.get_char(i)) {
        e_array_elem(s, i + 1)
    } else {
        match e_value(s, i) {
            Some(ve) => if i < ve && ve <= n {
                e_array_tail(s, ve)
            } else {
                None
            },
            None => None,
        }
    }
}

fn e_text_from(s: &str, i: usize) -> (r: bool)
    requires
        i <= s@.len(),
    ensures
        r == text_from(s@, i as int),
    decreases s@.len() - i, 1int,
{
    let n = s.unicode_len();
    if i >= n {
        return false;
    }
    if e_is_json_ws(s.get_char(i)) {
        e_text_from(s, i + 1)
    } else {
        match e_value(s, i) {
            Some(ve) => if ve <= n {
                e_ws_only_from(s, ve)
            } else {
                false
            },
            None => false,
        }
    }
}

/// Decides whether `s` is a syntactically valid JSON text.
pub fn json_is_valid(s: &str) -> (r: bool)
    ensures
        r == is_valid_json(s@),
{
    e_text_from(s, 0)
}

} // verus!

