use vstd::prelude::*;
use crate::channels::valid_url;
use crate::model::{Monitor, MonitorConfig, MonitorConfigInput, MonitorFormData};
use crate::strings::{lemma_trim_idempotent, trim, trim_str};
use crate::text::{dec, digit_char, push_char, push_str};

verus! {

/// Index of the first `c` at or after `i` in `s`, or the length of `s`.
pub open spec fn index_from(s: Seq<char>, c: char, i: int) -> int
    decreases s.len() - i,
{
    if i >= s.len() || i < 0 {
        s.len() as int
    } else if s[i] == c {
        i
    } else {
        index_from(s, c, i + 1)
    }
}

/// Index of the first character at or after `i` that is not `c`.
pub open spec fn skip_char(s: Seq<char>, c: char, i: int) -> int
    decreases s.len() - i,
{
    if i >= s.len() || i < 0 {
        s.len() as int
    } else if s[i] == c {
        skip_char(s, c, i + 1)
    } else {
        i
    }
}

/// The value of an `id=...` pair in `part`, when its key is `id` and its
/// value is not empty.
pub open spec fn id_value(part: Seq<char>) -> Option<Seq<char>> {
    let eq = index_from(part, '=', 0);
    let key = part.subrange(0, eq);
    let val = if eq < part.len() {
        part.subrange(eq + 1, part.len() as int)
    } else {
        Seq::<char>::empty()
    };
    if key == seq!['i', 'd'] && val.len() > 0 {
        Some(val)
    } else {
        None
    }
}

/// The first non-empty `id` value among the `&`-separated pairs of `s`
/// starting at index `i`.
pub open spec fn find_id(s: Seq<char>, i: int) -> Option<Seq<char>>
    decreases s.len() - i,
{
    if i < 0 || i > s.len() {
        None
    } else {
        let e = index_from(s, '&', i);
        match id_value(s.subrange(i, e)) {
            Some(v) => Some(v),
            None => if e >= s.len() {
                None
            } else {
                proof {
                    lemma_index_from_bounds(s, '&', i);
                }
                find_id(s, e + 1)
            },
        }
    }
}

pub proof fn lemma_index_from_bounds(s: Seq<char>, c: char, i: int)
    requires
        0 <= i <= s.len(),
    ensures
        i <= index_from(s, c, i) <= s.len(),
        index_from(s, c, i) < s.len() ==> s[index_from(s, c, i)] == c,
        forall|k: int| i <= k < index_from(s, c, i) ==> s[k] != c,
    decreases s.len() - i,
{
    if i < s.len() && s[i] != c {
        lemma_index_from_bounds(s, c, i + 1);
    }
}

/// The characters of `s`.
pub fn chars_of(s: &str) -> (r: Vec<char>)
    ensures
        r@ == s@,
{
    let n = s.unicode_len();
    let mut out: Vec<char> = Vec::new();
    let mut i: usize = 0;
    while i < n
        invariant
            n == s@.len(),
            i <= n,
            out@ == s@.take(i as int),
        decreases n - i,
    {
        out.push(s.get_char(i));
        i = i + 1;
        assert(out@ =~= s@.take(i as int));
    }
    assert(s@.take(n as int) =~= s@);
    out
}

fn index_from_exec(s: &Vec<char>, c: char, i: usize) -> (r: usize)
    requires
        i <= s.len(),
    ensures
        r == index_from(s@, c, i as int),
{
    let mut k = i;
    while k < s.len() && s[k] != c
        invariant
            i <= k <= s.len(),
            index_from(s@, c, k as int) == index_from(s@, c, i as int),
        decreases s.len() - k,
    {
        k = k + 1;
    }
    k
}

fn string_of_range(s: &Vec<char>, lo: usize, hi: usize) -> (r: String)
    requires
        lo <= hi <= s.len(),
    ensures
        r@ == s@.subrange(lo as int, hi as int),
{
    let mut out = String::new();
    let mut k = lo;
    while k < hi
        invariant
            lo <= k <= hi <= s.len(),
            out@ == s@.subrange(lo as int, k as int),
        decreases hi - k,
    {
        push_char(&mut out, s[k]);
        k = k + 1;
        assert(out@ =~= s@.subrange(lo as int, k as int));
    }
    out
}

/// The monitor id of an edit link: the first non-empty `id` value in the
/// query string `search`, whose leading `?` characters are ignored.
pub fn parse_edit_id(search: &str) -> (r: Option<String>)
    ensures
        r matches Some(v) ==> find_id(search@, skip_char(search@, '?', 0)) == Some(v@),
        r is None ==> find_id(search@, skip_char(search@, '?', 0)) is None,
{
    let s = chars_of(search);
    let mut i: usize = 0;
    while i < s.len() && s[i] == '?'
        invariant
            i <= s.len(),
            skip_char(s@, '?', i as int) == skip_char(s@, '?', 0),
        decreases s.len() - i,
    {
        i = i + 1;
    }
    loop
        invariant
            i <= s.len(),
            s@ == search@,
            find_id(s@, i as int) == find_id(s@, skip_char(s@, '?', 0)),
        decreases s.len() - i,
    {
        let e = index_from_exec(&s, '&', i);
        proof {
            lemma_index_from_bounds(s@, '&', i as int);
        }
        let eq = index_from_exec(&s, '=', i);
        proof {
            lemma_index_from_bounds(s@, '=', i as int);
        }
        // The first `=` of the pair, if the pair has one.
        let eq_in = if eq < e {
            eq
        } else {
            e
        };
        let ghost part = s@.subrange(i as int, e as int);
        proof {
            lemma_index_from_bounds(part, '=', 0);
            if eq < e {
                assert(part[eq - i] == '=');
                assert forall|k: int| 0 <= k < eq - i implies part[k] != '=' by {
                    assert(part[k] == s@[i + k]);
                }
                lemma_index_from_first(part, '=', eq - i);
            } else {
                assert forall|k: int| 0 <= k < part.len() implies part[k] != '=' by {
                    assert(part[k] == s@[i + k]);
                }
                lemma_index_from_first(part, '=', part.len() as int);
            }
            assert(part.subrange(0, eq_in - i) =~= s@.subrange(i as int, eq_in as int));
        }
        let key_is_id = eq_in - i == 2 && s[i] == 'i' && s[i + 1] == 'd';
        proof {
            if eq_in - i == 2 {
                assert(key_is_id == (s@.subrange(i as int, eq_in as int) =~= seq!['i', 'd']));
            } else {
                assert(s@.subrange(i as int, eq_in as int).len() != 2);
            }
        }
        if key_is_id && eq_in < e && eq_in + 1 < e {
            let v = string_of_range(&s, eq_in + 1, e);
            assert(v@ =~= part.subrange(eq_in - i + 1, part.len() as int));
            return Some(v);
        }
        proof {
            if eq_in < e {
                assert(part.subrange(eq_in - i + 1, part.len() as int).len() == e - eq_in - 1);
            }
        }
        if e >= s.len() {
            return None;
        }
        i = e + 1;
    }
}

pub proof fn lemma_index_from_first(s: Seq<char>, c: char, j: int)
    requires
        0 <= j <= s.len(),
        j < s.len() ==> s[j] == c,
        forall|k: int| 0 <= k < j ==> s[k] != c,
    ensures
        index_from(s, c, 0) == j,
{
    lemma_index_from_walk(s, c, 0, j);
}

proof fn lemma_index_from_walk(s: Seq<char>, c: char, i: int, j: int)
    requires
        0 <= i <= j <= s.len(),
        j < s.len() ==> s[j] == c,
        forall|k: int| i <= k < j ==> s[k] != c,
    ensures
        index_from(s, c, i) == j,
    decreases j - i,
{
    if i < j {
        lemma_index_from_walk(s, c, i + 1, j);
    }
}

/// Which fields of the monitor form were rejected.
#[derive(Debug, Clone, Copy, PartialEq, Eq, Structural)]
pub struct MonitorFormErrors {
    pub name: bool,
    pub url: bool,
    pub interval: bool,
    pub timeout: bool,
    pub retries: bool,
}

/// The field errors of the monitor form: a blank name, an invalid URL, an
/// interval outside 10 to 86400 seconds, a timeout outside 1 to 300 seconds,
/// or more than ten retries.
pub open spec fn spec_form_errors(
    name: Seq<char>,
    url: Seq<char>,
    interval: u32,
    timeout: u32,
    retries: u32,
) -> MonitorFormErrors {
    MonitorFormErrors {
        name: trim(name).len() == 0,
        url: !valid_url(url),
        interval: !(10 <= interval <= 86400),
        timeout: !(1 <= timeout <= 300),
        retries: !(retries <= 10),
    }
}

/// Whether any field is in error.
pub open spec fn any_error(e: MonitorFormErrors) -> bool {
    e.name || e.url || e.interval || e.timeout || e.retries
}

/// What the form sends is accepted again as it is: the trimmed name and URL
/// of an accepted form pass the same checks, and trimming leaves them as they
/// are.
pub proof fn lemma_form_data_revalidates(
    name: Seq<char>,
    url: Seq<char>,
    interval: u32,
    timeout: u32,
    retries: u32,
)
    requires
        !any_error(spec_form_errors(name, url, interval, timeout, retries)),
    ensures
        !any_error(spec_form_errors(trim(name), trim(url), interval, timeout, retries)),
        trim(trim(name)) == trim(name),
        trim(trim(url)) == trim(url),
{
    lemma_trim_idempotent(name);
    lemma_trim_idempotent(url);
}

/// Checks the monitor form and, when every field is acceptable, builds the
/// request body: name and URL trimmed, the other fields as entered.
pub fn validate_monitor_form(
    name: &str,
    url: &str,
    method: &str,
    status_codes: &Vec<u16>,
    interval: u32,
    timeout_secs: u32,
    retries: u32,
    enabled: bool,
) -> (r: Result<MonitorFormData, MonitorFormErrors>)
    ensures
        r is Err <==> any_error(spec_form_errors(name@, url@, interval, timeout_secs, retries)),
        r matches Err(e) ==> e == spec_form_errors(name@, url@, interval, timeout_secs, retries),
        r matches Ok(d) ==> {
            &&& d.name@ == trim(name@)
            &&& d.interval == interval
            &&& d.timeout == timeout_secs
            &&& d.retries == retries
            &&& d.enabled == enabled
            &&& d.config matches MonitorConfigInput::Http { url: u, method: m, expected_status: c }
            &&& u@ == trim(url@)
            &&& m@ == method@
            &&& c@ == status_codes@
        },
{
    let errors = MonitorFormErrors {
        name: trim_str(name).is_empty(),
        url: !crate::channels::is_valid_url(url),
        interval: !(10 <= interval && interval <= 86400),
        timeout: !(1 <= timeout_secs && timeout_secs <= 300),
        retries: !(retries <= 10),
    };
    if errors.name || errors.url || errors.interval || errors.timeout || errors.retries {
        return Err(errors);
    }
    Ok(
        MonitorFormData {
            name: trim_str(name).to_owned(),
            interval,
            timeout: timeout_secs,
            retries,
            enabled,
            config: MonitorConfigInput::Http {
                url: trim_str(url).to_owned(),
                method: method.to_owned(),
                expected_status: status_codes.clone(),
            },
        },
    )
}

/// Value of a run of ASCII digits.
pub open spec fn digits_value(s: Seq<char>) -> int
    decreases s.len(),
{
    if s.len() == 0 {
        0
    } else {
        digits_value(s.drop_last()) * 10 + (s.last() as int - 48)
    }
}

pub open spec fn is_digit(c: char) -> bool {
    '0' <= c <= '9'
}

/// Whether every character of `s` is an ASCII digit.
pub open spec fn all_digits(s: Seq<char>) -> bool {
    forall|i: int| 0 <= i < s.len() ==> is_digit(#[trigger] s[i])
}

/// What `str::parse` yields for an unsigned type whose largest value is
/// `max`: an optional `+`, then one or more ASCII digits whose value is at
/// most `max`.
pub open spec fn parse_uint(s: Seq<char>, max: int) -> Option<int> {
    let body = if s.len() > 0 && s[0] == '+' {
        s.drop_first()
    } else {
        s
    };
    if body.len() > 0 && all_digits(body) && digits_value(body) <= max {
        Some(digits_value(body))
    } else {
        None
    }
}

/// What `str::parse::<u16>` yields.
pub open spec fn parse_u16(s: Seq<char>) -> Option<int> {
    parse_uint(s, 65535)
}

/// What `str::parse::<u32>` yields.
pub open spec fn parse_u32(s: Seq<char>) -> Option<int> {
    parse_uint(s, 4294967295)
}

proof fn lemma_digits_value_nonneg(s: Seq<char>)
    requires
        forall|i: int| 0 <= i < s.len() ==> is_digit(s[i]),
    ensures
        digits_value(s) >= 0,
    decreases s.len(),
{
    if s.len() > 0 {
        lemma_digits_value_nonneg(s.drop_last());
    }
}

proof fn lemma_digits_value_prefix_grows(s: Seq<char>, k: int)
    requires
        0 <= k <= s.len(),
        forall|i: int| 0 <= i < s.len() ==> is_digit(s[i]),
    ensures
        digits_value(s.take(k)) <= digits_value(s),
    decreases s.len() - k,
{
    if k < s.len() {
        lemma_digits_value_prefix_grows(s, k + 1);
        assert(s.take(k + 1).drop_last() =~= s.take(k));
        lemma_digits_value_nonneg(s.take(k));
    } else {
        assert(s.take(k) =~= s);
    }
}

/// Parses `s` as `str::parse` does for an unsigned type whose largest value
/// is `max`.
fn parse_uint_exec(s: &str, max: u32) -> (r: Option<u32>)
    ensures
        r matches Some(v) ==> parse_uint(s@, max as int) == Some(v as int),
        r is None ==> parse_uint(s@, max as int) is None,
{
    let chars = chars_of(s);
    let start: usize = if chars.len() > 0 && chars[0] == '+' {
        1
    } else {
        0
    };
    let ghost body = if s@.len() > 0 && s@[0] == '+' {
        s@.drop_first()
    } else {
        s@
    };
    assert(body =~= chars@.skip(start as int));
    if start >= chars.len() {
        assert(body.len() == 0);
        return None;
    }
    let mut value: u64 = 0;
    let mut i = start;
    while i < chars.len()
        invariant
            start <= i <= chars.len(),
            chars@ == s@,
            body == (if s@.len() > 0 && s@[0] == '+' {
                s@.drop_first()
            } else {
                s@
            }),
            body == chars@.skip(start as int),
            forall|k: int| start <= k < i ==> is_digit(chars@[k]),
            value as int == digits_value(chars@.subrange(start as int, i as int)),
            value <= max,
        decreases chars.len() - i,
    {
        let c = chars[i];
        if !('0' <= c && c <= '9') {
            assert(body[i - start] == chars@[i as int]);
            assert(!is_digit(body[i - start]));
            assert(!all_digits(body));
            return None;
        }
        let d = ((c as u32) - 48) as u64;
        proof {
            assert(chars@.subrange(start as int, i as int + 1).drop_last() =~= chars@.subrange(
                start as int,
                i as int,
            ));
        }
        let next = value * 10 + d;
        i = i + 1;
        if next > max as u64 {
            proof {
                assert forall|k: int| 0 <= k < i - start implies is_digit(
                    chars@.subrange(start as int, i as int)[k],
                ) by {}
                if all_digits(body) {
                    assert(body.take(i - start) =~= chars@.subrange(start as int, i as int));
                    lemma_digits_value_prefix_grows(body, i - start);
                }
            }
            return None;
        }
        value = next;
    }
    assert(chars@.subrange(start as int, chars.len() as int) =~= body);
    Some(value as u32)
}

proof fn lemma_dec_digits(n: nat)
    ensures
        dec(n).len() > 0,
        all_digits(dec(n)),
        digits_value(dec(n)) == n,
    decreases n,
{
    if n < 10 {
        let c = digit_char(n as int);
        assert(c as int == 48 + n);
        assert(dec(n) =~= seq![c]);
        assert(seq![c].drop_last() =~= Seq::<char>::empty());
        assert(digits_value(seq![c]) == digits_value(Seq::<char>::empty()) * 10 + (c as int - 48));
    } else {
        lemma_dec_digits(n / 10);
        let c = digit_char((n % 10) as int);
        assert(c as int == 48 + n % 10);
        let d = dec(n);
        assert(d.drop_last() =~= dec(n / 10));
        assert(d.last() == c);
        assert(digits_value(d) == digits_value(dec(n / 10)) * 10 + (c as int - 48));
        assert((n / 10) * 10 + n % 10 == n);
        assert forall|i: int| 0 <= i < d.len() implies is_digit(#[trigger] d[i]) by {
            if i < d.len() - 1 {
                assert(d[i] == dec(n / 10)[i]);
            }
        }
    }
}

/// Reading back the decimal text of a number gives the number: what
/// `to_string` prints, `str::parse` accepts, for every value of the type.
pub proof fn lemma_parse_dec(n: nat, max: int)
    requires
        n <= max,
    ensures
        parse_uint(dec(n), max) == Some(n as int),
{
    lemma_dec_digits(n);
    assert(is_digit(dec(n)[0]));
}

/// Parses `s` as `str::parse::<u16>` does.
pub fn parse_u16_exec(s: &str) -> (r: Option<u16>)
    ensures
        r matches Some(v) ==> parse_u16(s@) == Some(v as int),
        r is None ==> parse_u16(s@) is None,
{
    match parse_uint_exec(s, 65535) {
        Some(v) => Some(v as u16),
        None => None,
    }
}

/// Parses `s` as `str::parse::<u32>` does.
pub fn parse_u32_exec(s: &str) -> (r: Option<u32>)
    ensures
        r matches Some(v) ==> parse_u32(s@) == Some(v as int),
        r is None ==> parse_u32(s@) is None,
{
    parse_uint_exec(s, u32::MAX)
}

/// The value a number field of a form keeps after `text` was typed: the
/// typed number when it parses as a `u32`, else the value it had.
pub fn number_field_update(current: u32, text: &str) -> (r: u32)
    ensures
        r == (match parse_u32(text@) {
            Some(v) => v,
            None => current as int,
        }),
{
    match parse_u32_exec(text) {
        Some(v) => v,
        None => current,
    }
}

/// Whether `codes` holds each value once and only status codes 100 to 599.
pub open spec fn codes_well_formed(codes: Seq<u16>) -> bool {
    &&& codes.no_duplicates()
    &&& forall|i: int| 0 <= i < codes.len() ==> 100 <= #[trigger] codes[i] <= 599
}

/// Adds the status code typed into the tag field: the trimmed text must parse
/// as a code from 100 to 599, and a code already present is not added again.
pub fn add_status_code(codes: &mut Vec<u16>, text: &str)
    ensures
        ({
            match parse_u16(trim(text@)) {
                Some(n) => if 100 <= n <= 599 && !old(codes)@.contains(n as u16) {
                    final(codes)@ == old(codes)@.push(n as u16)
                } else {
                    final(codes)@ == old(codes)@
                },
                None => final(codes)@ == old(codes)@,
            }
        }),
        codes_well_formed(old(codes)@) ==> codes_well_formed(final(codes)@),
{
    let parsed = parse_u16_exec(trim_str(text));
    match parsed {
        Some(n) => {
            if 100 <= n && n <= 599 {
                let mut present = false;
                let mut i: usize = 0;
                while i < codes.len()
                    invariant
                        i <= codes.len(),
                        present == (exists|k: int| 0 <= k < i && codes@[k] == n),
                    decreases codes.len() - i,
                {
                    if codes[i] == n {
                        present = true;
                    }
                    i = i + 1;
                }
                if !present {
                    codes.push(n);
                    proof {
                        if codes_well_formed(old(codes)@) {
                            assert forall|a: int, b: int|
                                0 <= a < b < codes@.len() implies codes@[a] != codes@[b] by {
                                assert(old(codes)@[a] == codes@[a]);
                                if b < codes@.len() - 1 {
                                    assert(old(codes)@[b] == codes@[b]);
                                }
                            }
                        }
                    }
                } else {
                    assert(old(codes)@.contains(n));
                }
            }
        },
        None => {},
    }
}

/// Removes every copy of `code` from the tags.
pub fn remove_status_code(codes: &mut Vec<u16>, code: u16)
    ensures
        final(codes)@ == old(codes)@.filter(|c: u16| c != code),
        codes_well_formed(old(codes)@) ==> codes_well_formed(final(codes)@),
{
    let ghost pred = |c: u16| c != code;
    let mut out: Vec<u16> = Vec::new();
    let mut i: usize = 0;
    while i < codes.len()
        invariant
            i <= codes.len(),
            pred == (|c: u16| c != code),
            out@ == codes@.take(i as int).filter(pred),
        decreases codes.len() - i,
    {
        let c = codes[i];
        if c != code {
            out.push(c);
        }
        proof {
            let t = codes@.take(i as int + 1);
            assert(t.drop_last() =~= codes@.take(i as int));
            assert(t.last() == c);
            reveal(Seq::filter);
            assert(t.filter(pred) == if pred(c) {
                codes@.take(i as int).filter(pred).push(c)
            } else {
                codes@.take(i as int).filter(pred)
            });
        }
        i = i + 1;
    }
    proof {
        assert(codes@.take(codes.len() as int) =~= codes@);
        let s = old(codes)@;
        if codes_well_formed(s) {
            lemma_filter_no_dup(s, pred);
            assert forall|i: int| 0 <= i < out@.len() implies 100 <= #[trigger] out@[i] <= 599 by {
                assert(out@.contains(out@[i]));
                s.lemma_filter_contains_rev(pred, out@[i]);
            }
        }
    }
    *codes = out;
}

proof fn lemma_filter_no_dup(s: Seq<u16>, pred: spec_fn(u16) -> bool)
    requires
        s.no_duplicates(),
    ensures
        s.filter(pred).no_duplicates(),
    decreases s.len(),
{
    reveal(Seq::filter);
    if s.len() > 0 {
        let init = s.drop_last();
        assert(init.no_duplicates()) by {
            assert forall|a: int, b: int| 0 <= a < b < init.len() implies init[a] != init[b] by {
                assert(init[a] == s[a] && init[b] == s[b]);
            }
        }
        lemma_filter_no_dup(init, pred);
        if pred(s.last()) {
            let f = init.filter(pred);
            assert(!f.contains(s.last())) by {
                if f.contains(s.last()) {
                    init.lemma_filter_contains_rev(pred, s.last());
                    let j = choose|j: int| 0 <= j < init.len() && init[j] == s.last();
                    assert(s[j] == s[s.len() - 1]);
                }
            }
            assert forall|a: int, b: int| 0 <= a < b < f.push(s.last()).len() implies f.push(
                s.last(),
            )[a] != f.push(s.last())[b] by {
                if b == f.len() {
                    assert(f.push(s.last())[a] == f[a]);
                }
            }
        }
    }
}

/// Drops the last tag (what Backspace does in an empty tag field).
pub fn pop_status_code(codes: &mut Vec<u16>)
    ensures
        final(codes)@ == (if old(codes)@.len() > 0 {
            old(codes)@.drop_last()
        } else {
            old(codes)@
        }),
        codes_well_formed(old(codes)@) ==> codes_well_formed(final(codes)@),
{
    let _ = codes.pop();
}

/// The values of the monitor form's fields.
#[derive(Debug, Clone, PartialEq, Eq)]
pub struct MonitorFormFields {
    pub name: String,
    pub url: String,
    pub method: String,
    pub status_codes: Vec<u16>,
    pub interval: u32,
    pub timeout_secs: u32,
    pub retries: u32,
    pub enabled: bool,
}

/// The fields of a blank monitor form: `GET` every sixty seconds with a
/// ten-second timeout, no retries, enabled.
pub fn new_monitor_form() -> (r: MonitorFormFields)
    ensures
        r.name@.len() == 0,
        r.url@.len() == 0,
        r.method@ == "GET"@,
        r.status_codes@.len() == 0,
        r.interval == 60,
        r.timeout_secs == 10,
        r.retries == 0,
        r.enabled,
{
    MonitorFormFields {
        name: String::new(),
        url: String::new(),
        method: String::from_str("GET"),
        status_codes: Vec::new(),
        interval: 60,
        timeout_secs: 10,
        retries: 0,
        enabled: true,
    }
}

/// The fields of the form that edits monitor `m`: its settings, with the
/// blank form's method and status codes where it sets none.
pub fn load_monitor_form(m: &Monitor) -> (r: MonitorFormFields)
    ensures
        r.name@ == m.name@,
        r.interval == m.interval,
        r.timeout_secs == m.timeout,
        r.retries == m.retries,
        r.enabled == m.enabled,
        match m.config {
            MonitorConfig::Http { url, method, expected_status } => {
                &&& r.url@ == url@
                &&& r.method@ == (match method {
                    Some(x) => x@,
                    None => "GET"@,
                })
                &&& r.status_codes@ == expected_status@
            },
        },
{
    let mut f = new_monitor_form();
    f.name = m.name.clone();
    match &m.config {
        MonitorConfig::Http { url, method, expected_status } => {
            f.url = url.clone();
            match method {
                Some(x) => {
                    f.method = x.clone();
                },
                None => {},
            }
            if expected_status.len() > 0 {
                f.status_codes = expected_status.clone();
            }
        },
    }
    f.interval = m.interval;
    f.timeout_secs = m.timeout;
    f.retries = m.retries;
    f.enabled = m.enabled;
    f
}

/// Where the form's back link leads: the edited monitor's page, or the
/// dashboard for a new monitor.
pub fn back_href(edit_id: Option<&str>) -> (r: String)
    ensures
        match edit_id {
            Some(id) => r@ == "/monitors/"@ + id@,
            None => r@ == "/"@,
        },
{
    match edit_id {
        Some(id) => {
            let mut s = String::from_str("/monitors/");
            push_str(&mut s, id);
            s
        },
        None => String::from_str("/"),
    }
}

/// The title, description and submit label of the monitor form.
pub fn monitor_form_labels(is_edit: bool) -> (r: (&'static str, &'static str, &'static str))
    ensures
        is_edit ==> r.0@ == "Edit monitor"@ && r.1@ == "Update the configuration for this monitor."@
            && r.2@ == "Update monitor"@,
        !is_edit ==> r.0@ == "Add monitor"@ && r.1@
            == "Configure a new endpoint to watch. Flatline will ping it on your chosen interval."@
            && r.2@ == "Save monitor"@,
{
    if is_edit {
        ("Edit monitor", "Update the configuration for this monitor.", "Update monitor")
    } else {
        (
            "Add monitor",
            "Configure a new endpoint to watch. Flatline will ping it on your chosen interval.",
            "Save monitor",
        )
    }
}

} // verus!
