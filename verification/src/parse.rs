//! Wire parser: inbound events and fan-out frames.
//!
//! The gateway's inbound wire schema is one JSON-shaped text per frame in
//! canonical form: `{"event":"Ping"}`, `{"event":"Pong"}`, or
//! `{"event":"Identify","token":"<token>","intents":<number>}` with the
//! fields in exactly that order and no extra whitespace.  Anything else is
//! an invalid payload.  The spec functions here define the accepted
//! language position by position; the executable parsers are proved to
//! return exactly what the spec functions say, and the round-trip lemmas
//! tie them back to the renderings of `codec`.

use vstd::prelude::*;
use crate::codec::{dec_chars, digit_char, ids_from, render_outbound, render_publish};
use crate::types::{InboundEvent, InboundModel, Publish};

verus! {

/// A decimal digit character.
pub open spec fn is_digit(c: char) -> bool {
    48 <= c as u32 && c as u32 <= 57
}

/// Its numeric value.
pub open spec fn digit_val(c: char) -> nat {
    (c as u32 - 48) as nat
}

/// The value of a digit string, most significant digit first.
pub open spec fn dec_val(s: Seq<char>) -> nat
    decreases s.len(),
{
    if s.len() == 0 {
        0
    } else {
        dec_val(s.drop_last()) * 10 + digit_val(s.last())
    }
}

/// The first position at or after `i` that does not hold a digit.
pub open spec fn num_end(s: Seq<char>, i: int) -> int
    decreases s.len() - i,
{
    if 0 <= i && i < s.len() && is_digit(s[i]) {
        num_end(s, i + 1)
    } else {
        i
    }
}

/// Parses a canonical decimal number at position `i`: at least one digit,
/// no leading zero, and a value that fits an identifier.  Returns the value
/// and the position after the digits.
pub open spec fn spec_parse_num(s: Seq<char>, i: int) -> Option<(u128, int)> {
    let j = num_end(s, i);
    if j == i {
        Option::None
    } else if s[i] == '0' && j > i + 1 {
        Option::None
    } else if dec_val(s.subrange(i, j)) > u128::MAX {
        Option::None
    } else {
        Option::Some((dec_val(s.subrange(i, j)) as u128, j))
    }
}

/// A character allowed inside a token: printable seven-bit text other than
/// the quote and the backslash, so a token never needs escaping.
pub open spec fn valid_token_char(c: char) -> bool {
    32 <= c as u32 && c as u32 <= 126 && c != '"' && c != '\\'
}

/// A well-formed token.
pub open spec fn valid_token(s: Seq<char>) -> bool {
    forall|k: int| 0 <= k < s.len() ==> valid_token_char(s[k])
}

/// The first position at or after `i` that does not hold a token character.
pub open spec fn token_end(s: Seq<char>, i: int) -> int
    decreases s.len() - i,
{
    if 0 <= i && i < s.len() && valid_token_char(s[i]) {
        token_end(s, i + 1)
    } else {
        i
    }
}

/// Whether `p` occurs in `s` at position `i`.
pub open spec fn match_at(s: Seq<char>, i: int, p: Seq<char>) -> bool {
    0 <= i && i + p.len() <= s.len() && s.subrange(i, i + p.len()) == p
}

/// `num_end` never moves backwards.
pub proof fn lemma_num_end_ge(s: Seq<char>, i: int)
    ensures
        num_end(s, i) >= i,
        num_end(s, i) <= s.len() || num_end(s, i) == i,
    decreases s.len() - i,
{
    if 0 <= i && i < s.len() && is_digit(s[i]) {
        lemma_num_end_ge(s, i + 1);
    }
}

/// Every position scanned over by `num_end` holds a digit.
pub proof fn lemma_num_end_digits(s: Seq<char>, i: int)
    requires
        0 <= i,
    ensures
        forall|k: int| i <= k < num_end(s, i) ==> is_digit(s[k]),
    decreases s.len() - i,
{
    if 0 <= i && i < s.len() && is_digit(s[i]) {
        lemma_num_end_digits(s, i + 1);
    }
}

/// A run of digits bounded by a non-digit (or the end) is exactly what
/// `num_end` scans.
pub proof fn lemma_num_run_end(s: Seq<char>, i: int, j: int)
    requires
        0 <= i <= j <= s.len(),
        forall|k: int| i <= k < j ==> is_digit(s[k]),
        j == s.len() || !is_digit(s[j]),
    ensures
        num_end(s, i) == j,
    decreases j - i,
{
    if i < j {
        lemma_num_run_end(s, i + 1, j);
    }
}

/// Same for token runs.
pub proof fn lemma_token_run_end(s: Seq<char>, i: int, j: int)
    requires
        0 <= i <= j <= s.len(),
        forall|k: int| i <= k < j ==> valid_token_char(s[k]),
        j == s.len() || !valid_token_char(s[j]),
    ensures
        token_end(s, i) == j,
    decreases j - i,
{
    if i < j {
        lemma_token_run_end(s, i + 1, j);
    }
}

/// The canonical decimal rendering consists of digits, has no leading zero
/// unless it is `0` itself, and evaluates back to the number.
pub proof fn lemma_dec_chars_props(n: nat)
    ensures
        dec_chars(n).len() >= 1,
        forall|k: int| 0 <= k < dec_chars(n).len() ==> is_digit(#[trigger] dec_chars(n)[k]),
        n == 0 ==> dec_chars(n) == seq!['0'],
        n >= 1 ==> dec_chars(n)[0] != '0',
        dec_val(dec_chars(n)) == n,
    decreases n,
{
    if n < 10 {
        assert(dec_chars(n) == seq![digit_char(n)]);
        assert(dec_val(seq![digit_char(n)]) == dec_val(seq![digit_char(n)].drop_last()) * 10
            + digit_val(digit_char(n)));
        assert(seq![digit_char(n)].drop_last() =~= Seq::<char>::empty());
    } else {
        lemma_dec_chars_props(n / 10);
        let d = dec_chars(n / 10);
        assert(dec_chars(n) == d.push(digit_char(n % 10)));
        assert(d.push(digit_char(n % 10)).drop_last() =~= d);
        assert(dec_val(dec_chars(n)) == dec_val(d) * 10 + digit_val(digit_char(n % 10)));
        assert(n / 10 * 10 + n % 10 == n);
        assert(dec_chars(n)[0] == d[0]);
    }
}

/// Parsing a number at the start of its own rendering recovers the number
/// and stops exactly after it.
pub proof fn lemma_parse_num_at(s: Seq<char>, i: int, n: u128)
    requires
        0 <= i,
        i + dec_chars(n as nat).len() <= s.len(),
        s.subrange(i, i + dec_chars(n as nat).len()) == dec_chars(n as nat),
        i + dec_chars(n as nat).len() == s.len() || !is_digit(s[i + dec_chars(n as nat).len()]),
    ensures
        spec_parse_num(s, i) == Option::Some((n, i + dec_chars(n as nat).len())),
{
    lemma_dec_chars_props(n as nat);
    let d = dec_chars(n as nat);
    let j = i + d.len();
    assert forall|k: int| i <= k < j implies is_digit(s[k]) by {
        assert(s[k] == d[k - i]);
    }
    lemma_num_run_end(s, i, j);
    assert(s[i] == d[0]);
    assert(s.subrange(i, j) == d);
    assert(dec_val(s.subrange(i, j)) == n);
}

/// Whether two strings hold the same characters.
fn str_eq(a: &str, b: &str) -> (r: bool)
    ensures
        r == (a@ == b@),
{
    let na = a.unicode_len();
    let nb = b.unicode_len();
    if na != nb {
        return false;
    }
    let mut i: usize = 0;
    while i < na
        invariant
            i <= na,
            na == a@.len(),
            na == b@.len(),
            forall|j: int| 0 <= j < i ==> a@[j] == b@[j],
        decreases na - i,
    {
        if a.get_char(i) != b.get_char(i) {
            return false;
        }
        i = i + 1;
    }
    proof {
        assert(a@ =~= b@);
    }
    true
}

/// Whether `p` occurs in `s` at position `i`.
fn match_at_exec(s: &str, i: usize, p: &str) -> (r: bool)
    requires
        i <= s@.len(),
    ensures
        r == match_at(s@, i as int, p@),
{
    let n = s.unicode_len();
    let pn = p.unicode_len();
    if pn > n - i {
        return false;
    }
    let mut k: usize = 0;
    while k < pn
        invariant
            k <= pn,
            i + pn <= n,
            n == s@.len(),
            pn == p@.len(),
            forall|j: int| 0 <= j < k ==> s@[i + j] == p@[j],
        decreases pn - k,
    {
        if s.get_char(i + k) != p.get_char(k) {
            assert(s@.subrange(i as int, i + pn) != p@) by {
                assert(s@.subrange(i as int, i + pn)[k as int] == s@[i + k]);
            }
            return false;
        }
        k = k + 1;
    }
    proof {
        assert(s@.subrange(i as int, i + pn) =~= p@);
    }
    true
}

/// Scans the token run beginning at `i`.
fn token_scan(s: &str, i: usize) -> (j: usize)
    requires
        i <= s@.len(),
    ensures
        j as int == token_end(s@, i as int),
        i <= j <= s@.len(),
{
    let n = s.unicode_len();
    let mut j: usize = i;
    while j < n
        invariant
            i <= j <= n,
            n == s@.len(),
            token_end(s@, i as int) == token_end(s@, j as int),
        decreases n - j,
    {
        let c = s.get_char(j);
        let code: u32 = c as u32;
        if !(32 <= code && code <= 126 && c != '"' && c != '\\') {
            return j;
        }
        j = j + 1;
    }
    j
}

/// Scans the digit run beginning at `i`.
fn digit_scan(s: &str, i: usize) -> (j: usize)
    requires
        i <= s@.len(),
    ensures
        j as int == num_end(s@, i as int),
        i <= j <= s@.len(),
{
    let n = s.unicode_len();
    let mut j: usize = i;
    while j < n
        invariant
            i <= j <= n,
            n == s@.len(),
            num_end(s@, i as int) == num_end(s@, j as int),
        decreases n - j,
    {
        let c = s.get_char(j);
        let code: u32 = c as u32;
        if !(48 <= code && code <= 57) {
            return j;
        }
        j = j + 1;
    }
    j
}

/// Parses a canonical decimal number at position `i` of `s`, exactly as
/// `spec_parse_num` says.
fn parse_num(s: &str, i: usize) -> (r: Option<(u128, usize)>)
    requires
        i <= s@.len(),
    ensures
        match r {
            Option::Some(p) => spec_parse_num(s@, i as int) == Option::Some((p.0, p.1 as int))
                && i < p.1 <= s@.len(),
            Option::None => spec_parse_num(s@, i as int) is None,
        },
{
    let j = digit_scan(s, i);
    proof {
        lemma_num_end_digits(s@, i as int);
    }
    if j == i {
        return Option::None;
    }
    if s.get_char(i) == '0' && j > i + 1 {
        return Option::None;
    }
    let mut k: usize = i;
    let mut val: u128 = 0;
    let mut overflow: bool = false;
    while k < j
        invariant
            i <= k <= j <= s@.len(),
            j as int == num_end(s@, i as int),
            forall|t: int| i <= t < j ==> is_digit(#[trigger] s@[t]),
            !overflow ==> val as nat == dec_val(s@.subrange(i as int, k as int)),
            overflow ==> dec_val(s@.subrange(i as int, k as int)) > u128::MAX,
        decreases j - k,
    {
        let c = s.get_char(k);
        let code: u32 = c as u32;
        assert(is_digit(s@[k as int]));
        let d: u128 = (code - 48) as u128;
        proof {
            assert(s@.subrange(i as int, k + 1).drop_last() =~= s@.subrange(i as int, k as int));
            assert(s@.subrange(i as int, k + 1).last() == s@[k as int]);
        }
        if overflow {
            proof {
                let prev = dec_val(s@.subrange(i as int, k as int));
                assert(dec_val(s@.subrange(i as int, k + 1)) == prev * 10 + digit_val(s@[k as int]));
                assert(prev * 10 >= prev);
            }
        } else if val > (u128::MAX - d) / 10 {
            proof {
                vstd::arithmetic::div_mod::lemma_fundamental_div_mod((u128::MAX - d) as int, 10);
            }
            overflow = true;
        } else {
            proof {
                vstd::arithmetic::div_mod::lemma_fundamental_div_mod((u128::MAX - d) as int, 10);
                vstd::arithmetic::mul::lemma_mul_inequality(
                    val as int,
                    ((u128::MAX - d) / 10) as int,
                    10,
                );
            }
            val = val * 10 + d;
        }
        k = k + 1;
    }
    proof {
        assert(s@.subrange(i as int, j as int) == s@.subrange(i as int, k as int));
    }
    if overflow {
        return Option::None;
    }
    Option::Some((val, j))
}

/// The wire text of a `Ping`.
pub open spec fn lit_ping() -> Seq<char> {
    "{\"event\":\"Ping\"}"@
}

/// The wire text of a `Pong`.
pub open spec fn lit_pong() -> Seq<char> {
    "{\"event\":\"Pong\"}"@
}

/// Everything of an `Identify` before the token.
pub open spec fn lit_identify_pre() -> Seq<char> {
    "{\"event\":\"Identify\",\"token\":\""@
}

/// Everything of an `Identify` between the token and the intents.
pub open spec fn lit_intents_mid() -> Seq<char> {
    "\",\"intents\":"@
}

/// The wire text of one inbound event in canonical form.
pub open spec fn render_inbound(m: InboundModel) -> Seq<char> {
    match m {
        InboundModel::Ping => lit_ping(),
        InboundModel::Pong => lit_pong(),
        InboundModel::Identify { token, intents } => lit_identify_pre() + token
            + lit_intents_mid() + dec_chars(intents as nat) + "}"@,
    }
}

/// A model whose rendering parses back: an `Identify` token holds only
/// token characters.
pub open spec fn inbound_wf(m: InboundModel) -> bool {
    match m {
        InboundModel::Identify { token, intents } => valid_token(token),
        _ => true,
    }
}

/// The language of inbound frames, position by position.  A text is an
/// inbound event exactly when this returns `Some`.
pub open spec fn spec_parse_inbound(s: Seq<char>) -> Option<InboundModel> {
    if s == lit_ping() {
        Option::Some(InboundModel::Ping)
    } else if s == lit_pong() {
        Option::Some(InboundModel::Pong)
    } else if match_at(s, 0, lit_identify_pre()) {
        let i = lit_identify_pre().len() as int;
        let j = token_end(s, i);
        if match_at(s, j, lit_intents_mid()) {
            let k = j + lit_intents_mid().len();
            match spec_parse_num(s, k) {
                Option::None => Option::None,
                Option::Some((v, m)) => if v <= u64::MAX && m == s.len() - 1 && s[m] == '}' {
                    Option::Some(InboundModel::Identify {
                        token: s.subrange(i, j),
                        intents: v as u64,
                    })
                } else {
                    Option::None
                },
            }
        } else {
            Option::None
        }
    } else {
        Option::None
    }
}

/// Parses one text frame as an inbound event; returns `None` exactly on
/// texts outside the wire language.
pub fn parse_inbound(s: &str) -> (r: Option<InboundEvent>)
    ensures
        match r {
            Option::Some(e) => spec_parse_inbound(s@) == Option::Some(e@),
            Option::None => spec_parse_inbound(s@) is None,
        },
{
    if str_eq(s, "{\"event\":\"Ping\"}") {
        return Option::Some(InboundEvent::Ping);
    }
    if str_eq(s, "{\"event\":\"Pong\"}") {
        return Option::Some(InboundEvent::Pong);
    }
    let n = s.unicode_len();
    let pre = "{\"event\":\"Identify\",\"token\":\"";
    if !match_at_exec(s, 0, pre) {
        return Option::None;
    }
    let i = pre.unicode_len();
    let j = token_scan(s, i);
    let mid = "\",\"intents\":";
    if !match_at_exec(s, j, mid) {
        return Option::None;
    }
    let midn = mid.unicode_len();
    assert(j + midn <= n);
    let k = j + midn;
    match parse_num(s, k) {
        Option::None => Option::None,
        Option::Some((v, m)) => {
            if !(v <= u64::MAX as u128 && m == n - 1 && s.get_char(m) == '}') {
                return Option::None;
            }
            let token = s.substring_char(i, j).to_owned();
            Option::Some(InboundEvent::Identify { token, intents: v as u64 })
        },
    }
}

/// Round trip: the canonical rendering of any well-formed inbound event
/// parses back to exactly that event.
pub proof fn lemma_inbound_round_trip(m: InboundModel)
    requires
        inbound_wf(m),
    ensures
        spec_parse_inbound(render_inbound(m)) == Option::Some(m),
{
    reveal_strlit("{\"event\":\"Ping\"}");
    reveal_strlit("{\"event\":\"Pong\"}");
    reveal_strlit("{\"event\":\"Identify\",\"token\":\"");
    reveal_strlit("\",\"intents\":");
    reveal_strlit("}");
    match m {
        InboundModel::Ping => {
        },
        InboundModel::Pong => {
            assert(lit_pong() != lit_ping()) by {
                assert(lit_pong()[11] == 'o');
                assert(lit_ping()[11] == 'i');
            }
        },
        InboundModel::Identify { token, intents } => {
            let s = render_inbound(m);
            let pre = lit_identify_pre();
            let mid = lit_intents_mid();
            let d = dec_chars(intents as nat);
            lemma_dec_chars_props(intents as nat);
            assert(pre.len() == 29);
            assert(mid.len() == 12);
            assert("}"@.len() == 1);
            let i = pre.len() as int;
            let j = i + token.len();
            let k = j + mid.len();
            let e = k + d.len();
            assert(s.len() == e + 1);
            assert(s != lit_ping());
            assert(s != lit_pong());
            assert(s.subrange(0, i) =~= pre);
            assert(match_at(s, 0, pre));
            assert forall|t: int| i <= t < j implies valid_token_char(s[t]) by {
                assert(s[t] == token[t - i]);
            }
            assert(s[j] == mid[0]);
            assert(mid[0] == '"');
            assert(!valid_token_char(s[j]));
            lemma_token_run_end(s, i, j);
            assert(token_end(s, i) == j);
            assert(s.subrange(j, k) =~= mid);
            assert(match_at(s, j, mid));
            assert(s.subrange(k, e) =~= d);
            assert(s[e] == '}');
            assert(!is_digit(s[e]));
            lemma_parse_num_at(s, k, intents as u128);
            assert(spec_parse_num(s, k) == Option::Some((intents as u128, e)));
            assert(s.subrange(i, j) =~= token);
        },
    }
}

/// The identifier list of a fan-out frame from position `i` on: decimal
/// numbers separated by commas, closed by a bracket.  Returns the
/// identifiers and the position after the closing bracket.
pub open spec fn parse_ids(s: Seq<char>, i: int) -> Option<(Seq<u128>, int)>
    decreases s.len() - i,
{
    match spec_parse_num(s, i) {
        Option::None => Option::None,
        Option::Some((v, j0)) => {
            // A successful number parse always advances past at least one
            // digit; the lower bound keeps the recursion visibly decreasing.
            let j = if j0 > i { j0 } else { i + 1 };
            if j < s.len() && s[j] == ',' {
                match parse_ids(s, j + 1) {
                    Option::None => Option::None,
                    Option::Some((rest, k)) => Option::Some((seq![v] + rest, k)),
                }
            } else if j < s.len() && s[j] == ']' {
                Option::Some((seq![v], j + 1))
            } else {
                Option::None
            }
        },
    }
}

/// The language of fan-out frames: the bracketed target list, then the
/// client payload verbatim.
pub open spec fn spec_parse_publish(s: Seq<char>) -> Option<PublishModel> {
    if s.len() >= 2 && s[0] == '[' && s[1] == ']' {
        Option::Some(PublishModel { targets: Seq::empty(), payload: s.skip(2) })
    } else if s.len() >= 1 && s[0] == '[' {
        match parse_ids(s, 1) {
            Option::None => Option::None,
            Option::Some((ids, k)) => Option::Some(PublishModel { targets: ids, payload: s.skip(k) }),
        }
    } else {
        Option::None
    }
}

/// Parses the identifier list of a fan-out frame, pushing the identifiers
/// onto `out`; returns the position after the closing bracket.
fn parse_ids_exec(s: &str, i: usize, out: &mut Vec<u128>) -> (r: Option<usize>)
    requires
        i <= s@.len(),
        i >= 1,
    ensures
        match r {
            Option::Some(k) => (parse_ids(s@, i as int) matches Option::Some(p) && p.1 == k as int
                && final(out)@ == old(out)@ + p.0 && k <= s@.len()),
            Option::None => parse_ids(s@, i as int) is None,
        },
    decreases s@.len() - i,
{
    let n = s.unicode_len();
    match parse_num(s, i) {
        Option::None => Option::None,
        Option::Some((v, j)) => {
            proof {
                lemma_num_end_ge(s@, i as int);
            }
            if j < n {
                let c = s.get_char(j);
                if c == ',' {
                    out.push(v);
                    let r = parse_ids_exec(s, j + 1, out);
                    match r {
                        Option::Some(k) => {
                            proof {
                                let p = parse_ids(s@, (j + 1) as int)->Some_0;
                                assert(old(out)@.push(v) + p.0 =~= old(out)@ + (seq![v] + p.0));
                            }
                            Option::Some(k)
                        },
                        Option::None => Option::None,
                    }
                } else if c == ']' {
                    out.push(v);
                    proof {
                        assert(old(out)@.push(v) =~= old(out)@ + seq![v]);
                    }
                    Option::Some(j + 1)
                } else {
                    Option::None
                }
            } else {
                Option::None
            }
        },
    }
}

/// A parsed fan-out frame: the addressed users and the client payload to
/// deliver to each of their sessions.
pub struct PublishFrame {
    pub targets: Vec<u128>,
    pub payload: String,
}

/// The mathematical model of a parsed fan-out frame.
pub ghost struct PublishModel {
    pub targets: Seq<u128>,
    pub payload: Seq<char>,
}

impl View for PublishFrame {
    type V = PublishModel;

    open spec fn view(&self) -> PublishModel {
        PublishModel { targets: self.targets@, payload: self.payload@ }
    }
}

/// Parses one fan-out frame into its target list and its verbatim client
/// payload; returns `None` exactly on texts outside the frame language.
pub fn parse_publish(s: &str) -> (r: Option<PublishFrame>)
    ensures
        match r {
            Option::Some(p) => spec_parse_publish(s@) == Option::Some(p@),
            Option::None => spec_parse_publish(s@) is None,
        },
{
    let n = s.unicode_len();
    if n >= 2 && s.get_char(0) == '[' && s.get_char(1) == ']' {
        let payload = s.substring_char(2, n).to_owned();
        proof {
            assert(s@.subrange(2, n as int) =~= s@.skip(2));
        }
        return Option::Some(PublishFrame { targets: Vec::new(), payload });
    }
    if n >= 1 && s.get_char(0) == '[' {
        let mut ids: Vec<u128> = Vec::new();
        match parse_ids_exec(s, 1, &mut ids) {
            Option::None => Option::None,
            Option::Some(k) => {
                let payload = s.substring_char(k, n).to_owned();
                proof {
                    assert(s@.subrange(k as int, n as int) =~= s@.skip(k as int));
                }
                Option::Some(PublishFrame { targets: ids, payload })
            },
        }
    } else {
        Option::None
    }
}

/// Parsing an identifier list inside the rendering of that list recovers
/// exactly the remaining identifiers and stops after the bracket.
proof fn lemma_parse_ids_render(s: Seq<char>, ids: Seq<u128>, t: int, i: int)
    requires
        0 <= t < ids.len(),
        1 <= i,
        i + ids_from(ids, t).len() + 1 <= s.len(),
        s.subrange(i, i + ids_from(ids, t).len() + 1) == ids_from(ids, t) + seq![']'],
    ensures
        parse_ids(s, i) == Option::Some((ids.skip(t), i + ids_from(ids, t).len() + 1)),
    decreases ids.len() - t,
{
    reveal_strlit(",");
    let region = ids_from(ids, t) + seq![']'];
    let d = dec_chars(ids[t] as nat);
    lemma_dec_chars_props(ids[t] as nat);
    let j = i + d.len();
    let fin = i + ids_from(ids, t).len() + 1;
    assert forall|k: int| 0 <= k < region.len() implies #[trigger] s[i + k] == region[k] by {
        assert(s.subrange(i, fin)[k] == s[i + k]);
    }
    assert(s.subrange(i, j) =~= d) by {
        assert forall|k: int| 0 <= k < d.len() implies s.subrange(i, j)[k] == d[k] by {
            assert(s[i + k] == region[k]);
        }
    }
    assert(s[i + d.len() as int] == region[d.len() as int]);
    if t == ids.len() - 1 {
        assert(ids_from(ids, t) == d);
        assert(region[d.len() as int] == ']');
        assert(s[j] == ']');
        assert(!is_digit(']'));
        lemma_parse_num_at(s, i, ids[t]);
        assert(parse_ids(s, i) == Option::Some((seq![ids[t]], j + 1)));
        assert(seq![ids[t]] =~= ids.skip(t));
    } else {
        let inner = ids_from(ids, t + 1);
        assert(ids_from(ids, t) == d + ","@ + inner);
        assert(","@.len() == 1);
        assert(region[d.len() as int] == ',');
        assert(s[j] == ',');
        assert(!is_digit(','));
        lemma_parse_num_at(s, i, ids[t]);
        assert(s.subrange(j + 1, j + 1 + inner.len() + 1) =~= inner + seq![']']) by {
            assert forall|k: int| 0 <= k < inner.len() + 1 implies
                s.subrange(j + 1, j + 1 + inner.len() + 1)[k] == (inner + seq![']'])[k] by {
                assert(s[i + (d.len() + 1 + k)] == region[d.len() + 1 + k]);
                assert(s.subrange(j + 1, j + 1 + inner.len() + 1)[k] == s[j + 1 + k]);
                assert(region[d.len() + 1 + k] == (inner + seq![']'])[k]);
            }
        }
        lemma_parse_ids_render(s, ids, t + 1, j + 1);
        assert(parse_ids(s, j + 1) == Option::Some((ids.skip(t + 1), fin)));
        assert(parse_ids(s, i) == Option::Some((seq![ids[t]] + ids.skip(t + 1), fin)));
        assert(seq![ids[t]] + ids.skip(t + 1) =~= ids.skip(t));
    }
}

/// Round trip: a rendered fan-out frame parses back to exactly its target
/// list and its payload.
pub proof fn lemma_publish_round_trip(p: Publish)
    ensures
        spec_parse_publish(render_publish(p)) == Option::Some(PublishModel {
            targets: p.targets@,
            payload: render_outbound(p.event),
        }),
{
    reveal_strlit("[");
    reveal_strlit("]");
    let ids = p.targets@;
    let inner = ids_from(ids, 0);
    let payload = render_outbound(p.event);
    let s = render_publish(p);
    assert(s =~= seq!['['] + inner + seq![']'] + payload);
    assert(s[0] == '[');
    if ids.len() == 0 {
        assert(inner =~= Seq::<char>::empty());
        assert(s[1] == ']');
        assert(s.skip(2) =~= payload);
        assert(ids =~= Seq::<u128>::empty());
    } else {
        lemma_dec_chars_props(ids[0] as nat);
        assert(inner[0] == dec_chars(ids[0] as nat)[0]) by {
            if ids.len() == 1 {
                assert(ids_from(ids, 0) == dec_chars(ids[0] as nat));
            } else {
                assert(ids_from(ids, 0) == dec_chars(ids[0] as nat) + ","@ + ids_from(ids, 1));
            }
        }
        assert(s[1] == inner[0]);
        assert(is_digit(s[1]));
        assert(!is_digit(']'));
        assert(s[1] != ']');
        let fin: int = 1 + inner.len() as int + 1;
        assert(s.subrange(1, fin) =~= inner + seq![']']);
        lemma_parse_ids_render(s, ids, 0, 1);
        assert(ids.skip(0) =~= ids);
        assert(s.skip(fin) =~= payload);
    }
}

/// Every position scanned over by `token_end` holds a token character.
proof fn lemma_token_end_chars(s: Seq<char>, i: int)
    requires
        0 <= i,
    ensures
        forall|k: int| i <= k < token_end(s, i) ==> valid_token_char(s[k]),
    decreases s.len() - i,
{
    if 0 <= i && i < s.len() && valid_token_char(s[i]) {
        lemma_token_end_chars(s, i + 1);
    }
}

/// A character with the code point of `'0'` is `'0'`.
proof fn lemma_char_zero(c: char)
    requires
        c as u32 == 48,
    ensures
        c == '0',
{
}

/// A digit character is the rendering of its own value.
proof fn lemma_digit_char_of(c: char)
    requires
        is_digit(c),
    ensures
        digit_char(digit_val(c)) == c,
{
}

/// A digit string without a leading zero has a positive value, and a
/// longer one reaches at least ten.
proof fn lemma_dec_val_pos(d: Seq<char>)
    requires
        d.len() >= 1,
        forall|k: int| 0 <= k < d.len() ==> is_digit(#[trigger] d[k]),
        d[0] != '0',
    ensures
        dec_val(d) >= 1,
        d.len() >= 2 ==> dec_val(d) >= 10,
    decreases d.len(),
{
    if d.len() == 1 {
        assert(d.drop_last() =~= Seq::<char>::empty());
        assert(dec_val(Seq::<char>::empty()) == 0);
        assert(dec_val(d) == digit_val(d[0]));
        assert(is_digit(d[0]));
        if d[0] as u32 == 48 {
            lemma_char_zero(d[0]);
        }
        assert(d[0] as u32 != 48);
        assert(digit_val(d[0]) >= 1);
    } else {
        assert(d.drop_last()[0] == d[0]);
        assert(forall|k: int| 0 <= k < d.drop_last().len() ==> is_digit(#[trigger] d.drop_last()[k]));
        lemma_dec_val_pos(d.drop_last());
    }
}

/// Canonical digit strings are unique: a digit string without a leading
/// zero is the rendering of its own value.
proof fn lemma_dec_chars_unique(d: Seq<char>)
    requires
        d.len() >= 1,
        forall|k: int| 0 <= k < d.len() ==> is_digit(#[trigger] d[k]),
        d.len() >= 2 ==> d[0] != '0',
    ensures
        d == dec_chars(dec_val(d)),
    decreases d.len(),
{
    let n = dec_val(d);
    if d.len() == 1 {
        assert(d.drop_last() =~= Seq::<char>::empty());
        assert(dec_val(Seq::<char>::empty()) == 0);
        assert(n == digit_val(d[0]));
        lemma_digit_char_of(d[0]);
        assert(d =~= seq![digit_char(n)]);
    } else {
        let front = d.drop_last();
        assert(front[0] == d[0]);
        assert(forall|k: int| 0 <= k < front.len() ==> is_digit(#[trigger] front[k]));
        lemma_dec_val_pos(d);
        lemma_dec_chars_unique(front);
        let q = dec_val(front);
        let r = digit_val(d.last());
        assert(n == q * 10 + r);
        vstd::arithmetic::div_mod::lemma_fundamental_div_mod_converse(
            n as int,
            10,
            q as int,
            r as int,
        );
        assert(q == n / 10 && r == n % 10);
        lemma_digit_char_of(d.last());
        assert(dec_chars(n) == dec_chars(n / 10).push(digit_char(n % 10)));
        assert(d =~= front.push(d.last()));
    }
}


/// `token_end` never moves backwards and stays in bounds.
proof fn lemma_token_end_ge(s: Seq<char>, i: int)
    ensures
        token_end(s, i) >= i,
        token_end(s, i) <= s.len() || token_end(s, i) == i,
    decreases s.len() - i,
{
    if 0 <= i && i < s.len() && valid_token_char(s[i]) {
        lemma_token_end_ge(s, i + 1);
    }
}

/// The parser accepts nothing but canonical renderings: whatever it
/// returns an event for is exactly that event's rendering, so each
/// inbound event has one wire text and each accepted text one reading.
pub proof fn lemma_parse_inbound_exact(s: Seq<char>)
    ensures
        spec_parse_inbound(s) matches Option::Some(m) ==> inbound_wf(m) && s == render_inbound(m),
{
    reveal_strlit("}");
    if s == lit_ping() || s == lit_pong() {
    } else if match_at(s, 0, lit_identify_pre()) {
        let pre = lit_identify_pre();
        let mid = lit_intents_mid();
        let i = pre.len() as int;
        let j = token_end(s, i);
        lemma_token_end_ge(s, i);
        lemma_token_end_chars(s, i);
        if match_at(s, j, mid) {
            let k = j + mid.len();
            match spec_parse_num(s, k) {
                Option::None => {
                },
                Option::Some((v, mm)) => {
                    if v <= u64::MAX && mm == s.len() - 1 && s[mm] == '}' {
                        let token = s.subrange(i, j);
                        let d = s.subrange(k, mm);
                        lemma_num_end_ge(s, k);
                        lemma_num_end_digits(s, k);
                        assert(forall|x: int| 0 <= x < d.len() ==> is_digit(#[trigger] d[x]));
                        assert(d.len() >= 2 ==> d[0] != '0');
                        lemma_dec_chars_unique(d);
                        assert(dec_chars(v as nat) == d);
                        let m = InboundModel::Identify { token, intents: v as u64 };
                        assert(inbound_wf(m));
                        let r = pre + token + mid + dec_chars((v as u64) as nat) + "}"@;
                        assert((v as u64) as nat == v as nat);
                        assert(r.len() == s.len());
                        assert(s =~= r) by {
                            assert forall|x: int| 0 <= x < s.len() implies s[x] == r[x] by {
                                if x < i {
                                    assert(s.subrange(0, i)[x] == s[x]);
                                    assert(r[x] == pre[x]);
                                } else if x < j {
                                    assert(r[x] == token[x - i]);
                                } else if x < k {
                                    assert(s.subrange(j, k)[x - j] == s[x]);
                                    assert(r[x] == mid[x - j]);
                                } else if x < mm {
                                    assert(r[x] == d[x - k]);
                                } else {
                                    assert(r[x] == "}"@[0]);
                                }
                            }
                        }
                        assert(spec_parse_inbound(s) == Option::Some(m));
                        assert(render_inbound(m) == r);
                    }
                },
            }
        }
    }
}


/// Prepending one identifier shifts the rendering index by one.
proof fn lemma_ids_from_shift(v: u128, rest: Seq<u128>, t: int)
    requires
        0 <= t,
    ensures
        ids_from(seq![v] + rest, t + 1) == ids_from(rest, t),
    decreases rest.len() - t,
{
    let whole = seq![v] + rest;
    if t < rest.len() {
        assert(whole[t + 1] == rest[t]);
        if t < rest.len() - 1 {
            lemma_ids_from_shift(v, rest, t + 1);
        }
    }
}

/// The identifier-list parser accepts nothing but renderings: whatever it
/// returns covers exactly the rendering of those identifiers up to the
/// closing bracket.
proof fn lemma_parse_ids_exact(s: Seq<char>, i: int)
    requires
        0 <= i,
    ensures
        parse_ids(s, i) matches Option::Some(p) ==> p.0.len() >= 1 && i < p.1 <= s.len()
            && s.subrange(i, p.1) == ids_from(p.0, 0) + seq![']'],
    decreases s.len() - i,
{
    reveal_strlit(",");
    match spec_parse_num(s, i) {
        Option::None => {
        },
        Option::Some((v, j0)) => {
            lemma_num_end_ge(s, i);
            lemma_num_end_digits(s, i);
            let j = j0;
            let d = s.subrange(i, j);
            assert(forall|x: int| 0 <= x < d.len() ==> is_digit(#[trigger] d[x]));
            assert(d.len() >= 2 ==> d[0] != '0');
            lemma_dec_chars_unique(d);
            assert(dec_chars(v as nat) == d);
            if j < s.len() && s[j] == ',' {
                match parse_ids(s, j + 1) {
                    Option::None => {
                    },
                    Option::Some((rest, k)) => {
                        lemma_parse_ids_exact(s, j + 1);
                        let ids = seq![v] + rest;
                        lemma_ids_from_shift(v, rest, 0);
                        assert(ids[0] == v);
                        assert(ids.len() >= 2);
                        assert(ids_from(ids, 0) == dec_chars(ids[0] as nat) + ","@ + ids_from(
                            ids,
                            0int + 1,
                        ));
                        assert(ids_from(ids, 0) == dec_chars(v as nat) + ","@ + ids_from(ids, 1));
                        assert(s.subrange(i, k) =~= ids_from(ids, 0) + seq![']']) by {
                            let tail = ids_from(rest, 0);
                            let a = dec_chars(v as nat) + ","@;
                            let r = dec_chars(v as nat) + ","@ + tail + seq![']'];
                            assert(s.subrange(j + 1, k) == tail + seq![']']);
                            assert(s.subrange(j + 1, k).len() == k - j - 1);
                            assert(k - j - 1 == tail.len() + 1);
                            assert(","@.len() == 1);
                            assert(a.len() == j - i + 1);
                            assert forall|x: int| 0 <= x < k - i implies s.subrange(i, k)[x]
                                == r[x] by {
                                assert(s.subrange(i, k)[x] == s[i + x]);
                                if x < j - i {
                                    assert(r[x] == d[x]);
                                } else if x == j - i {
                                    assert(r[x] == ","@[0]);
                                    assert(","@[0] == ',');
                                } else {
                                    let y = x - (j - i) - 1;
                                    assert(s.subrange(j + 1, k)[y] == s[j + 1 + y]);
                                    assert(s.subrange(i, k)[x] == (tail + seq![']'])[y]);
                                    if y < tail.len() {
                                        assert(r[x] == (a + tail)[x]);
                                        assert((a + tail)[x] == tail[y]);
                                        assert((tail + seq![']'])[y] == tail[y]);
                                    } else {
                                        assert(y == tail.len());
                                        assert(r[x] == ']');
                                        assert((tail + seq![']'])[y] == ']');
                                    }
                                }
                            }
                            assert(ids_from(ids, 0) + seq![']'] =~= r);
                            assert(s.subrange(i, k).len() == k - i);
                            assert(r.len() == k - i);
                        }
                    },
                }
            } else if j < s.len() && s[j] == ']' {
                let ids = seq![v];
                assert(ids_from(ids, 0) == dec_chars(v as nat));
                assert(s.subrange(i, j + 1) =~= ids_from(ids, 0) + seq![']']) by {
                    assert forall|x: int| 0 <= x < j + 1 - i implies s.subrange(i, j + 1)[x]
                        == (ids_from(ids, 0) + seq![']'])[x] by {
                        if x < j - i {
                            assert((ids_from(ids, 0) + seq![']'])[x] == d[x]);
                        }
                    }
                }
            }
        },
    }
}

/// A fan-out frame has one reading: whatever the frame parser accepts is
/// exactly the rendering of the returned target list followed by the
/// returned payload, so no two publications share a wire frame.
pub proof fn lemma_parse_publish_exact(s: Seq<char>)
    ensures
        spec_parse_publish(s) matches Option::Some(p) ==> s == "["@ + ids_from(p.targets, 0)
            + "]"@ + p.payload,
{
    reveal_strlit("[");
    reveal_strlit("]");
    if s.len() >= 2 && s[0] == '[' && s[1] == ']' {
        let p = spec_parse_publish(s)->Some_0;
        assert(ids_from(p.targets, 0) == Seq::<char>::empty());
        assert(s =~= "["@ + ids_from(p.targets, 0) + "]"@ + p.payload);
    } else if s.len() >= 1 && s[0] == '[' {
        match parse_ids(s, 1) {
            Option::None => {
            },
            Option::Some((ids, k)) => {
                lemma_parse_ids_exact(s, 1);
                assert(s.subrange(1, k) == ids_from(ids, 0) + seq![']']);
                assert(s =~= "["@ + ids_from(ids, 0) + "]"@ + s.skip(k)) by {
                    assert forall|x: int| 0 <= x < s.len() implies s[x] == ("["@ + ids_from(
                        ids,
                        0,
                    ) + "]"@ + s.skip(k))[x] by {
                        let r = "["@ + ids_from(ids, 0) + "]"@ + s.skip(k);
                        if x == 0 {
                            assert(r[0] == "["@[0]);
                        } else if x < k {
                            assert(s.subrange(1, k)[x - 1] == s[x]);
                            assert((ids_from(ids, 0) + seq![']'])[x - 1] == r[x]);
                        } else {
                            assert(r[x] == s.skip(k)[x - k]);
                        }
                    }
                }
            },
        }
    }
}

} // verus!
