//! View de-duplication: the ids of posts whose view a client has already
//! counted travel in a cookie as a comma-joined list of decimal ids.

use vstd::prelude::*;

verus! {

/// Largest magnitude that an `i32` entry can have (that of `i32::MIN`).
pub open spec fn magnitude_limit() -> nat {
    2147483648
}

/// The value of a decimal digit.
pub open spec fn digit_of(c: char) -> Option<nat> {
    if c == '0' {
        Some(0)
    } else if c == '1' {
        Some(1)
    } else if c == '2' {
        Some(2)
    } else if c == '3' {
        Some(3)
    } else if c == '4' {
        Some(4)
    } else if c == '5' {
        Some(5)
    } else if c == '6' {
        Some(6)
    } else if c == '7' {
        Some(7)
    } else if c == '8' {
        Some(8)
    } else if c == '9' {
        Some(9)
    } else {
        None
    }
}

/// The digit that writes `n`, for `n < 10`.
pub open spec fn digit_char(n: nat) -> char {
    if n == 0 {
        '0'
    } else if n == 1 {
        '1'
    } else if n == 2 {
        '2'
    } else if n == 3 {
        '3'
    } else if n == 4 {
        '4'
    } else if n == 5 {
        '5'
    } else if n == 6 {
        '6'
    } else if n == 7 {
        '7'
    } else if n == 8 {
        '8'
    } else {
        '9'
    }
}

/// The decimal digits of `n`, without leading zeros.
pub open spec fn digits(n: nat) -> Seq<char>
    decreases n,
{
    if n < 10 {
        seq![digit_char(n)]
    } else {
        digits(n / 10) + seq![digit_char(n % 10)]
    }
}

/// How an integer is written: its digits, after a `-` when negative.
pub open spec fn decimal(x: int) -> Seq<char> {
    if x < 0 {
        seq!['-'] + digits((-x) as nat)
    } else {
        digits(x as nat)
    }
}

/// The ids written out, joined by `,`.
pub open spec fn joined(ids: Seq<i32>) -> Seq<char>
    decreases ids.len(),
{
    if ids.len() == 0 {
        seq![]
    } else if ids.len() == 1 {
        decimal(ids[0] as int)
    } else {
        joined(ids.drop_last()) + seq![','] + decimal(ids.last() as int)
    }
}

/// What has been read of the entry in progress: a leading `-`, whether a
/// digit came, the value of the digits, and whether the entry is spoilt.
pub struct EntryScan {
    pub neg: bool,
    pub seen: bool,
    pub value: nat,
    pub bad: bool,
}

/// What has been read of a cookie: the ids of the finished entries and the
/// entry in progress.
pub struct ListScan {
    pub done: Seq<i32>,
    pub cur: EntryScan,
}

pub open spec fn fresh_entry() -> EntryScan {
    EntryScan { neg: false, seen: false, value: 0, bad: false }
}

/// Reads one character that is not a separator into an entry.
pub open spec fn entry_step(e: EntryScan, c: char) -> EntryScan {
    if e.bad {
        e
    } else if c == '-' && !e.neg && !e.seen {
        EntryScan { neg: true, ..e }
    } else if digit_of(c) is Some && e.value * 10 + digit_of(c)->Some_0 <= magnitude_limit() {
        EntryScan { seen: true, value: e.value * 10 + digit_of(c)->Some_0, ..e }
    } else {
        EntryScan { bad: true, ..e }
    }
}

/// The id an entry stands for; spoilt, empty or out-of-range entries stand
/// for none.
pub open spec fn entry_value(e: EntryScan) -> Option<i32> {
    if e.bad || !e.seen {
        None
    } else if e.neg {
        Some((-(e.value as int)) as i32)
    } else if e.value < magnitude_limit() {
        Some(e.value as i32)
    } else {
        None
    }
}

pub open spec fn push_entry(done: Seq<i32>, e: EntryScan) -> Seq<i32> {
    match entry_value(e) {
        Some(x) => done.push(x),
        None => done,
    }
}

pub open spec fn list_step(st: ListScan, c: char) -> ListScan {
    if c == ',' {
        ListScan { done: push_entry(st.done, st.cur), cur: fresh_entry() }
    } else {
        ListScan { done: st.done, cur: entry_step(st.cur, c) }
    }
}

/// The state after reading `s` from state `st`.
pub open spec fn scan_from(st: ListScan, s: Seq<char>) -> ListScan
    decreases s.len(),
{
    if s.len() == 0 {
        st
    } else {
        list_step(scan_from(st, s.drop_last()), s.last())
    }
}

pub open spec fn start_scan() -> ListScan {
    ListScan { done: seq![], cur: fresh_entry() }
}

/// The ids a cookie value holds: each `,`-separated entry that writes an
/// `i32` in decimal (an optional `-`, then digits), in order; other entries
/// are skipped.
pub open spec fn viewed_ids(s: Seq<char>) -> Seq<i32> {
    let st = scan_from(start_scan(), s);
    push_entry(st.done, st.cur)
}

/// The ids a request's cookie holds; none without the cookie.
pub open spec fn cookie_ids(cookie: Option<Seq<char>>) -> Seq<i32> {
    match cookie {
        Some(c) => viewed_ids(c),
        None => seq![],
    }
}

/// The cookie to set when a view of `id` is to be counted, or `None` when
/// this client's view of `id` was counted before.
pub open spec fn next_cookie(cookie: Option<Seq<char>>, id: i32) -> Option<Seq<char>> {
    if cookie_ids(cookie).contains(id) {
        None
    } else {
        Some(joined(cookie_ids(cookie).push(id)))
    }
}

pub open spec fn text_of(cookie: Option<&str>) -> Option<Seq<char>> {
    match cookie {
        Some(c) => Some(c@),
        None => None,
    }
}

/// Reading a text in two parts is reading the first, then the second.
pub proof fn lemma_scan_concat(st: ListScan, a: Seq<char>, b: Seq<char>)
    ensures
        scan_from(st, a + b) == scan_from(scan_from(st, a), b),
    decreases b.len(),
{
    if b.len() == 0 {
        assert(a + b =~= a);
    } else {
        assert((a + b).drop_last() =~= a + b.drop_last());
        assert((a + b).last() == b.last());
        lemma_scan_concat(st, a, b.drop_last());
    }
}

/// Reading one character is one step.
proof fn lemma_scan_one(st: ListScan, c: char)
    ensures
        scan_from(st, seq![c]) == list_step(st, c),
{
    assert(seq![c].drop_last() =~= Seq::<char>::empty());
    assert(scan_from(st, Seq::<char>::empty()) == st);
}

proof fn lemma_digit_char(n: nat)
    requires
        n < 10,
    ensures
        digit_of(digit_char(n)) == Some(n),
        digit_char(n) != ',',
        digit_char(n) != '-',
{
}

/// Reading the digits of `n` into an entry that has no digit yet gives it
/// the value `n`.
proof fn lemma_scan_digits(done: Seq<i32>, neg: bool, n: nat)
    requires
        n <= magnitude_limit(),
    ensures
        scan_from(
            ListScan { done, cur: EntryScan { neg, seen: false, value: 0, bad: false } },
            digits(n),
        ) == (ListScan { done, cur: EntryScan { neg, seen: true, value: n, bad: false } }),
    decreases n,
{
    let st = ListScan { done, cur: EntryScan { neg, seen: false, value: 0, bad: false } };
    if n < 10 {
        lemma_digit_char(n);
        lemma_scan_one(st, digit_char(n));
    } else {
        let c = digit_char((n % 10) as nat);
        lemma_digit_char((n % 10) as nat);
        assert(digits(n) == digits(n / 10) + seq![c]);
        lemma_scan_digits(done, neg, n / 10);
        lemma_scan_concat(st, digits(n / 10), seq![c]);
        let mid = ListScan {
            done,
            cur: EntryScan { neg, seen: true, value: n / 10, bad: false },
        };
        lemma_scan_one(mid, c);
        assert((n / 10) * 10 + n % 10 == n);
    }
}

/// Reading the decimal text of `x` from a fresh entry leaves an entry that
/// stands for `x`.
proof fn lemma_scan_decimal(done: Seq<i32>, x: i32)
    ensures
        scan_from(ListScan { done, cur: fresh_entry() }, decimal(x as int)).done == done,
        entry_value(scan_from(ListScan { done, cur: fresh_entry() }, decimal(x as int)).cur) == Some(
            x,
        ),
{
    let st = ListScan { done, cur: fresh_entry() };
    if x < 0 {
        let m = (-x) as nat;
        lemma_scan_one(st, '-');
        lemma_scan_concat(st, seq!['-'], digits(m));
        lemma_scan_digits(done, true, m);
    } else {
        lemma_scan_digits(done, false, x as nat);
    }
}

/// The state after reading a non-empty joined list: all ids but the last
/// are finished, and the entry in progress stands for the last.
proof fn lemma_scan_joined(ids: Seq<i32>)
    requires
        ids.len() > 0,
    ensures
        scan_from(start_scan(), joined(ids)).done == ids.drop_last(),
        entry_value(scan_from(start_scan(), joined(ids)).cur) == Some(ids.last()),
    decreases ids.len(),
{
    if ids.len() == 1 {
        lemma_scan_decimal(seq![], ids[0]);
        assert(ids.drop_last() =~= Seq::<i32>::empty());
    } else {
        let pre = ids.drop_last();
        lemma_scan_joined(pre);
        let st = scan_from(start_scan(), joined(pre));
        lemma_scan_concat(start_scan(), joined(pre), seq![',']);
        lemma_scan_one(st, ',');
        assert(pre.drop_last().push(pre.last()) =~= pre);
        lemma_scan_concat(start_scan(), joined(pre) + seq![','], decimal(ids.last() as int));
        lemma_scan_decimal(pre, ids.last());
    }
}

/// Writing ids out and reading them back gives the same ids, in order.
pub proof fn lemma_viewed_round_trip(ids: Seq<i32>)
    ensures
        viewed_ids(joined(ids)) == ids,
{
    if ids.len() > 0 {
        lemma_scan_joined(ids);
        assert(ids.drop_last().push(ids.last()) =~= ids);
    }
}

/// Once a view of `id` has been recorded, the written list reports `id` as
/// viewed; a client without any list has viewed nothing.
pub proof fn lemma_recorded_is_viewed(ids: Seq<i32>, id: i32)
    ensures
        viewed_ids(joined(ids.push(id))).contains(id),
        !viewed_ids(Seq::<char>::empty()).contains(id),
        !cookie_ids(None).contains(id),
{
    lemma_viewed_round_trip(ids.push(id));
    assert(ids.push(id)[ids.len() as int] == id);
}

/// Two view requests for one post from one client, the second carrying the
/// cookie set by the first, count the view once: the second finds it counted.
pub proof fn lemma_second_view_not_counted(cookie: Option<Seq<char>>, id: i32)
    ensures
        next_cookie(cookie, id) matches Some(c) ==> next_cookie(Some(c), id) is None,
{
    if let Some(c) = next_cookie(cookie, id) {
        lemma_recorded_is_viewed(cookie_ids(cookie), id);
    }
}

/// What a view request leads to.
#[derive(Debug, Clone, PartialEq, Eq)]
pub enum ViewDecision {
    /// This client's view of the post was counted before: touch nothing.
    AlreadyCounted,
    /// Count the view and set the cookie to this list.
    Count { cookie: String },
}

/// The value of a decimal digit character.
fn digit_value(c: char) -> (r: Option<u32>)
    ensures
        r matches Some(d) ==> digit_of(c) == Some(d as nat),
        r is None ==> digit_of(c) is None,
{
    match c {
        '0' => Some(0),
        '1' => Some(1),
        '2' => Some(2),
        '3' => Some(3),
        '4' => Some(4),
        '5' => Some(5),
        '6' => Some(6),
        '7' => Some(7),
        '8' => Some(8),
        '9' => Some(9),
        _ => None,
    }
}

/// The id a finished entry stands for.
fn close_entry(neg: bool, seen: bool, value: u32, bad: bool) -> (r: Option<i32>)
    requires
        value <= magnitude_limit(),
    ensures
        r == entry_value(EntryScan { neg, seen, value: value as nat, bad }),
{
    if bad || !seen {
        None
    } else if neg {
        Some((-(value as i64)) as i32)
    } else if value < 2147483648 {
        Some(value as i32)
    } else {
        None
    }
}

/// Reads the ids out of a cookie value.
pub fn parse_viewed(cookie: &str) -> (r: Vec<i32>)
    ensures
        r@ == viewed_ids(cookie@),
{
    let n = cookie.unicode_len();
    let mut out: Vec<i32> = Vec::new();
    let mut neg = false;
    let mut seen = false;
    let mut value: u32 = 0;
    let mut bad = false;
    let mut i: usize = 0;
    while i < n
        invariant
            n == cookie@.len(),
            i <= n,
            value <= magnitude_limit(),
            scan_from(start_scan(), cookie@.subrange(0, i as int)) == (ListScan {
                done: out@,
                cur: EntryScan { neg, seen, value: value as nat, bad },
            }),
        decreases n - i,
    {
        let c = cookie.get_char(i);
        let ghost before = cookie@.subrange(0, i as int);
        proof {
            assert(cookie@.subrange(0, i + 1) =~= before + seq![c]);
            lemma_scan_concat(start_scan(), before, seq![c]);
            lemma_scan_one(scan_from(start_scan(), before), c);
        }
        if c == ',' {
            if let Some(x) = close_entry(neg, seen, value, bad) {
                out.push(x);
            }
            neg = false;
            seen = false;
            value = 0;
            bad = false;
        } else if !bad {
            if c == '-' && !neg && !seen {
                neg = true;
            } else {
                match digit_value(c) {
                    Some(d) => {
                        let v: u64 = value as u64 * 10 + d as u64;
                        if v <= 2147483648 {
                            value = v as u32;
                            seen = true;
                        } else {
                            bad = true;
                        }
                    },
                    None => {
                        bad = true;
                    },
                }
            }
        }
        i = i + 1;
    }
    proof {
        assert(cookie@.subrange(0, n as int) =~= cookie@);
    }
    if let Some(x) = close_entry(neg, seen, value, bad) {
        out.push(x);
    }
    out
}

/// Relies on `Display` for `i32`: decimal digits without leading zeros,
/// after a `-` for a negative value.
#[verifier::external_body]
fn decimal_text(x: i32) -> (r: String)
    ensures
        r@ == decimal(x as int),
{
    x.to_string()
}

/// Writes ids out as a cookie value.
pub fn serialize_viewed(ids: &Vec<i32>) -> (r: String)
    ensures
        r@ == joined(ids@),
{
    let mut s = String::new();
    let comma = ",";
    proof {
        reveal_strlit(",");
    }
    let mut i: usize = 0;
    while i < ids.len()
        invariant
            i <= ids@.len(),
            comma@ == seq![','],
            s@ == joined(ids@.subrange(0, i as int)),
        decreases ids@.len() - i,
    {
        let ghost pre = ids@.subrange(0, i as int + 1);
        proof {
            assert(pre.drop_last() =~= ids@.subrange(0, i as int));
        }
        if i > 0 {
            s.append(comma);
        }
        let d = decimal_text(ids[i]);
        s.append(d.as_str());
        proof {
            if i == 0 {
                assert(s@ =~= joined(pre));
            }
        }
        i = i + 1;
    }
    proof {
        assert(ids@.subrange(0, ids@.len() as int) =~= ids@);
    }
    s
}

/// Whether the client's view of `id` was counted before.
pub fn already_viewed(ids: &Vec<i32>, id: i32) -> (r: bool)
    ensures
        r == ids@.contains(id),
{
    let mut i: usize = 0;
    while i < ids.len()
        invariant
            i <= ids@.len(),
            forall|j: int| 0 <= j < i ==> ids@[j] != id,
        decreases ids@.len() - i,
    {
        if ids[i] == id {
            return true;
        }
        i = i + 1;
    }
    false
}

/// Notes that the client's view of `id` is counted.
pub fn record(ids: Vec<i32>, id: i32) -> (r: Vec<i32>)
    ensures
        r@ == ids@.push(id),
{
    let mut ids = ids;
    ids.push(id);
    ids
}

/// Decides a view request for post `id` from the client's cookie: count it
/// and set the extended list, or report it counted before.
pub fn view_decision(cookie: Option<&str>, id: i32) -> (r: ViewDecision)
    ensures
        r is AlreadyCounted <==> next_cookie(text_of(cookie), id) is None,
        r matches ViewDecision::Count { cookie: c } ==> next_cookie(text_of(cookie), id) == Some(
            c@,
        ),
{
    let ids = match cookie {
        Some(c) => parse_viewed(c),
        None => Vec::new(),
    };
    if already_viewed(&ids, id) {
        ViewDecision::AlreadyCounted
    } else {
        let ids = record(ids, id);
        ViewDecision::Count { cookie: serialize_viewed(&ids) }
    }
}

} // verus!
