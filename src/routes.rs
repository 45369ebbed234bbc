//! Agent-side routing: which operation a REST path or a JSON-RPC method names,
//! with the task id and the optional history length a path carries.
use vstd::prelude::*;

use crate::rest::{cancel_path, task_history_path, task_path};
use crate::http::Method;
use crate::types::decimal_text;

verus! {

pub open spec fn starts_with_text(s: Seq<char>, p: Seq<char>) -> bool {
    p.len() <= s.len() && s.subrange(0, p.len() as int) == p
}

pub open spec fn ends_with_text(s: Seq<char>, p: Seq<char>) -> bool {
    p.len() <= s.len() && s.subrange(s.len() - p.len(), s.len() as int) == p
}

/// Index of the first `c` at or after `i`.
pub open spec fn char_from(s: Seq<char>, c: char, i: int) -> Option<int>
    decreases s.len() - i,
{
    if i < 0 || i >= s.len() {
        None
    } else if s[i] == c {
        Some(i)
    } else {
        char_from(s, c, i + 1)
    }
}

pub open spec fn is_digit(c: char) -> bool {
    '0' <= c <= '9'
}

/// The value of a string of decimal digits.
pub open spec fn digits_value(s: Seq<char>) -> nat
    decreases s.len(),
{
    if s.len() == 0 {
        0
    } else {
        digits_value(s.drop_last()) * 10 + ((s.last() as u32) - ('0' as u32)) as nat
    }
}

/// The digits of an unsigned number, after its optional `+`.
pub open spec fn unsigned_digits(s: Seq<char>) -> Seq<char> {
    if s.len() > 0 && s[0] == '+' {
        s.drop_first()
    } else {
        s
    }
}

/// The unsigned 32-bit number a string denotes: an optional `+`, then one or
/// more decimal digits, with a value that fits.
pub open spec fn u32_of(s: Seq<char>) -> Option<u32> {
    let d = unsigned_digits(s);
    if d.len() > 0 && (forall|i: int| 0 <= i < d.len() ==> is_digit(#[trigger] d[i]))
        && digits_value(d) <= u32::MAX {
        Some(digits_value(d) as u32)
    } else {
        None
    }
}

pub open spec fn tasks_prefix() -> Seq<char> {
    "/v1/tasks/"@
}

pub open spec fn history_key() -> Seq<char> {
    "historyLength="@
}

/// The value of the first `&`-separated query parameter, at or after `i`,
/// that starts with `historyLength=`.
pub open spec fn history_param(q: Seq<char>, i: int) -> Option<Seq<char>>
    decreases q.len() - i,
{
    if i < 0 || i > q.len() {
        None
    } else {
        let end = match char_from(q, '&', i) {
            Some(k) => k,
            None => q.len() as int,
        };
        let param = q.subrange(i, end);
        if starts_with_text(param, history_key()) {
            Some(param.subrange(history_key().len() as int, param.len() as int))
        } else if end < q.len() && i <= end {
            history_param(q, end + 1)
        } else {
            None
        }
    }
}

/// Whether a GET path names a task lookup.
pub open spec fn is_task_get_path(p: Seq<char>) -> bool {
    starts_with_text(p, tasks_prefix()) && !ends_with_text(p, ":cancel"@)
}

/// The task id and history length of a lookup path, or the rejection.
pub open spec fn task_get_of(p: Seq<char>) -> Result<(Seq<char>, Option<u32>), (u16, Seq<char>)> {
    let rest = if starts_with_text(p, tasks_prefix()) {
        p.subrange(tasks_prefix().len() as int, p.len() as int)
    } else {
        p
    };
    let (id, query) = match char_from(rest, '?', 0) {
        Some(k) => (rest.subrange(0, k), Some(rest.subrange(k + 1, rest.len() as int))),
        None => (rest, None),
    };
    if id.len() == 0 {
        Err((400u16, "Missing task ID"@))
    } else {
        let h = match query {
            Some(q) => match history_param(q, 0) {
                Some(v) => u32_of(v),
                None => None,
            },
            None => None,
        };
        Ok((id, h))
    }
}

/// The task id of a cancellation path, or the rejection.
pub open spec fn cancel_id_of(p: Seq<char>) -> Result<Seq<char>, (u16, Seq<char>)> {
    if !starts_with_text(p, tasks_prefix()) {
        Err((400u16, "Invalid path"@))
    } else {
        let rest = p.subrange(tasks_prefix().len() as int, p.len() as int);
        if !ends_with_text(rest, ":cancel"@) {
            Err((400u16, "Invalid path"@))
        } else {
            let id = rest.subrange(0, rest.len() - 7);
            if id.len() == 0 {
                Err((400u16, "Missing task ID"@))
            } else {
                Ok(id)
            }
        }
    }
}

/// Whether `s` starts with `p`.
fn text_starts_with(s: &str, p: &str) -> (r: bool)
    ensures
        r == starts_with_text(s@, p@),
{
    let n = p.unicode_len();
    if n > s.unicode_len() {
        return false;
    }
    let mut i: usize = 0;
    while i < n
        invariant
            n == p@.len(),
            n <= s@.len(),
            i <= n,
            forall|k: int| 0 <= k < i ==> s@[k] == p@[k],
        decreases n - i,
    {
        if s.get_char(i) != p.get_char(i) {
            assert(s@.subrange(0, n as int)[i as int] != p@[i as int]);
            return false;
        }
        i = i + 1;
    }
    assert(s@.subrange(0, n as int) =~= p@);
    true
}

/// Whether `s` ends with `p`.
fn text_ends_with(s: &str, p: &str) -> (r: bool)
    ensures
        r == ends_with_text(s@, p@),
{
    let n = p.unicode_len();
    let m = s.unicode_len();
    if n > m {
        return false;
    }
    let off = m - n;
    let mut i: usize = 0;
    while i < n
        invariant
            n == p@.len(),
            m == s@.len(),
            off + n == m,
            i <= n,
            forall|k: int| 0 <= k < i ==> s@[off + k] == p@[k],
        decreases n - i,
    {
        if s.get_char(off + i) != p.get_char(i) {
            assert(s@.subrange(off as int, m as int)[i as int] != p@[i as int]);
            return false;
        }
        i = i + 1;
    }
    assert(s@.subrange(off as int, m as int) =~= p@);
    true
}

/// Index of the first `c` at or after `from`.
fn find_char(s: &str, c: char, from: usize) -> (r: Option<usize>)
    requires
        from <= s@.len(),
    ensures
        match r {
            Some(k) => char_from(s@, c, from as int) == Some(k as int) && from <= k < s@.len(),
            None => char_from(s@, c, from as int) is None,
        },
{
    let n = s.unicode_len();
    let mut i = from;
    while i < n
        invariant
            n == s@.len(),
            from <= i <= n,
            char_from(s@, c, from as int) == char_from(s@, c, i as int),
        decreases n - i,
    {
        if s.get_char(i) == c {
            return Some(i);
        }
        i = i + 1;
    }
    None
}

proof fn lemma_digits_value_prefix(d: Seq<char>, j: int)
    requires
        0 <= j <= d.len(),
    ensures
        digits_value(d.subrange(0, j)) <= digits_value(d),
    decreases d.len(),
{
    if j < d.len() {
        assert(d.drop_last().subrange(0, j) =~= d.subrange(0, j));
        lemma_digits_value_prefix(d.drop_last(), j);
        assert(digits_value(d.drop_last()) <= digits_value(d)) by (nonlinear_arith)
            requires
                digits_value(d) == digits_value(d.drop_last()) * 10 + ((d.last() as u32) - ('0' as u32)) as nat,
        ;
    } else {
        assert(d.subrange(0, j) =~= d);
    }
}

/// Parses an unsigned 32-bit decimal number.
pub fn parse_u32(s: &str) -> (r: Option<u32>)
    ensures
        r == u32_of(s@),
{
    let n = s.unicode_len();
    let start: usize = if n > 0 && s.get_char(0) == '+' {
        1
    } else {
        0
    };
    let ghost d = unsigned_digits(s@);
    assert(d =~= s@.subrange(start as int, n as int));
    if start == n {
        return None;
    }
    let mut acc: u64 = 0;
    let mut i = start;
    while i < n
        invariant
            n == s@.len(),
            start <= i <= n,
            d == s@.subrange(start as int, n as int),
            d == unsigned_digits(s@),
            acc == digits_value(d.subrange(0, i - start)),
            acc <= u32::MAX,
            forall|k: int| 0 <= k < i - start ==> is_digit(#[trigger] d[k]),
        decreases n - i,
    {
        let c = s.get_char(i);
        if !('0' <= c && c <= '9') {
            assert(!is_digit(d[i - start]));
            return None;
        }
        let ghost prev = d.subrange(0, i - start);
        let ghost next = d.subrange(0, i - start + 1);
        assert(next.drop_last() =~= prev);
        let v = acc * 10 + ((c as u32) - ('0' as u32)) as u64;
        assert(v == digits_value(next));
        if v > 4294967295u64 {
            proof {
                lemma_digits_value_prefix(d, i - start + 1);
            }
            return None;
        }
        acc = v;
        i = i + 1;
    }
    assert(d.subrange(0, n - start) =~= d);
    Some(acc as u32)
}

/// The value of the first `historyLength=` parameter of a query.
fn history_value(q: &str) -> (r: Option<String>)
    ensures
        match r {
            Some(v) => history_param(q@, 0) == Some(v@),
            None => history_param(q@, 0) is None,
        },
{
    proof {
        reveal_strlit("historyLength=");
    }
    let n = q.unicode_len();
    let mut i: usize = 0;
    loop
        invariant
            n == q@.len(),
            i <= n,
            history_param(q@, 0) == history_param(q@, i as int),
        decreases n - i,
    {
        proof {
            reveal_strlit("historyLength=");
        }
        let end = match find_char(q, '&', i) {
            Some(k) => k,
            None => n,
        };
        let param = q.substring_char(i, end);
        if text_starts_with(param, "historyLength=") {
            let value = param.substring_char(14, param.unicode_len());
            return Some(String::from_str(value));
        }
        if end < n {
            i = end + 1;
        } else {
            return None;
        }
    }
}

/// Whether a GET path names a task lookup.
pub fn is_task_get(path: &str) -> (r: bool)
    ensures
        r == is_task_get_path(path@),
{
    text_starts_with(path, "/v1/tasks/") && !text_ends_with(path, ":cancel")
}

/// Reads a lookup path `/v1/tasks/{id}` or `/v1/tasks/{id}?historyLength={n}`;
/// a history length that does not parse is ignored.
pub fn parse_task_get(path: &str) -> (r: Result<(String, Option<u32>), (u16, String)>)
    ensures
        match task_get_of(path@) {
            Ok((id, h)) => r matches Ok((i, x)) && i@ == id && x == h,
            Err((code, msg)) => r matches Err((c, m)) && c == code && m@ == msg,
        },
{
    proof {
        reveal_strlit("/v1/tasks/");
    }
    let rest: &str = if text_starts_with(path, "/v1/tasks/") {
        path.substring_char(10, path.unicode_len())
    } else {
        path
    };
    let rest_len = rest.unicode_len();
    let (id, query): (&str, Option<&str>) = match find_char(rest, '?', 0) {
        Some(k) => (rest.substring_char(0, k), Some(rest.substring_char(k + 1, rest_len))),
        None => (rest, None),
    };
    if id.unicode_len() == 0 {
        return Err((400, String::from_str("Missing task ID")));
    }
    let history = match query {
        Some(q) => match history_value(q) {
            Some(v) => parse_u32(v.as_str()),
            None => None,
        },
        None => None,
    };
    Ok((String::from_str(id), history))
}

/// Reads a cancellation path `/v1/tasks/{id}:cancel`.
pub fn extract_task_id_before_action(path: &str) -> (r: Result<String, (u16, String)>)
    ensures
        match cancel_id_of(path@) {
            Ok(id) => r matches Ok(i) && i@ == id,
            Err((code, msg)) => r matches Err((c, m)) && c == code && m@ == msg,
        },
{
    proof {
        reveal_strlit("/v1/tasks/");
        reveal_strlit(":cancel");
    }
    if !text_starts_with(path, "/v1/tasks/") {
        return Err((400, String::from_str("Invalid path")));
    }
    let rest = path.substring_char(10, path.unicode_len());
    if !text_ends_with(rest, ":cancel") {
        return Err((400, String::from_str("Invalid path")));
    }
    let id = rest.substring_char(0, rest.unicode_len() - 7);
    if id.unicode_len() == 0 {
        return Err((400, String::from_str("Missing task ID")));
    }
    Ok(String::from_str(id))
}

proof fn lemma_char_from_skip(s: Seq<char>, c: char, i: int, j: int)
    requires
        0 <= i <= j <= s.len(),
        forall|k: int| i <= k < j ==> s[k] != c,
    ensures
        char_from(s, c, i) == char_from(s, c, j),
    decreases j - i,
{
    if i < j {
        lemma_char_from_skip(s, c, i + 1, j);
    }
}

proof fn lemma_digit_char(d: nat)
    requires
        d < 10,
    ensures
        is_digit(crate::types::digit_char(d)),
        (crate::types::digit_char(d) as u32) - ('0' as u32) == d,
{
    let t = seq!['0', '1', '2', '3', '4', '5', '6', '7', '8', '9'];
    assert(crate::types::digit_char(d) == t[d as int]);
    if d == 0 { assert(t[0] == '0'); }
    else if d == 1 { assert(t[1] == '1'); }
    else if d == 2 { assert(t[2] == '2'); }
    else if d == 3 { assert(t[3] == '3'); }
    else if d == 4 { assert(t[4] == '4'); }
    else if d == 5 { assert(t[5] == '5'); }
    else if d == 6 { assert(t[6] == '6'); }
    else if d == 7 { assert(t[7] == '7'); }
    else if d == 8 { assert(t[8] == '8'); }
    else { assert(t[9] == '9'); }
}

proof fn lemma_decimal_digits(n: nat)
    ensures
        decimal_text(n).len() > 0,
        forall|i: int| 0 <= i < decimal_text(n).len() ==> is_digit(#[trigger] decimal_text(n)[i]),
        digits_value(decimal_text(n)) == n,
    decreases n,
{
    if n < 10 {
        lemma_digit_char(n);
        assert(decimal_text(n).drop_last() =~= Seq::<char>::empty());
        assert(decimal_text(n).last() == crate::types::digit_char(n));
        assert(digits_value(Seq::<char>::empty()) == 0);
    } else {
        lemma_decimal_digits(n / 10);
        lemma_digit_char(n % 10);
        let t = decimal_text(n);
        assert(t.drop_last() =~= decimal_text(n / 10));
        assert(t.last() == crate::types::digit_char(n % 10));
        assert(digits_value(t) == (n / 10) * 10 + n % 10);
        assert((n / 10) * 10 + n % 10 == n) by (nonlinear_arith);
        assert forall|i: int| 0 <= i < t.len() implies is_digit(#[trigger] t[i]) by {
            if i < t.len() - 1 {
                assert(t[i] == decimal_text(n / 10)[i]);
            }
        }
    }
}

proof fn lemma_lookup_path_back(id: Seq<char>)
    requires
        id.len() > 0,
        forall|i: int| 0 <= i < id.len() ==> #[trigger] id[i] != '?',
    ensures
        task_get_of(task_path(id)) == Ok::<_, (u16, Seq<char>)>((id, None::<u32>)),
{
    reveal_strlit("/v1/tasks/");
    let pre = tasks_prefix();
    let p1 = task_path(id);
    assert(p1.subrange(0, pre.len() as int) =~= pre);
    assert(p1.subrange(pre.len() as int, p1.len() as int) =~= id);
    lemma_char_from_skip(id, '?', 0, id.len() as int);
}

proof fn lemma_history_query_back(n: u32)
    ensures
        history_param(history_key() + decimal_text(n as nat), 0) == Some(decimal_text(n as nat)),
        u32_of(decimal_text(n as nat)) == Some(n),
{
    reveal_strlit("historyLength=");
    let digits = decimal_text(n as nat);
    lemma_decimal_digits(n as nat);
    let q = history_key() + digits;
    assert forall|k: int| 0 <= k < q.len() implies q[k] != '&' by {
        if k >= 14 {
            assert(q[k] == digits[k - 14]);
            assert(is_digit(digits[k - 14]));
        }
    }
    lemma_char_from_skip(q, '&', 0, q.len() as int);
    assert(q.subrange(0, q.len() as int) =~= q);
    assert(q.subrange(0, 14) =~= history_key());
    assert(q.subrange(14, q.len() as int) =~= digits);
    assert(unsigned_digits(digits) == digits);
}

proof fn lemma_history_path_back(id: Seq<char>, n: u32)
    requires
        id.len() > 0,
        forall|i: int| 0 <= i < id.len() ==> #[trigger] id[i] != '?',
    ensures
        task_get_of(task_history_path(id, n as nat)) == Ok::<_, (u16, Seq<char>)>((id, Some(n))),
{
    reveal_strlit("/v1/tasks/");
    reveal_strlit("?historyLength=");
    reveal_strlit("historyLength=");
    let pre = tasks_prefix();
    let digits = decimal_text(n as nat);
    let p2 = task_history_path(id, n as nat);
    let rest = p2.subrange(pre.len() as int, p2.len() as int);
    assert(p2.subrange(0, pre.len() as int) =~= pre);
    assert(rest =~= id + "?historyLength="@ + digits);
    lemma_char_from_skip(rest, '?', 0, id.len() as int);
    assert(rest.subrange(0, id.len() as int) =~= id);
    let q = rest.subrange(id.len() as int + 1, rest.len() as int);
    assert(q =~= history_key() + digits);
    lemma_history_query_back(n);
}

proof fn lemma_cancel_path_back(id: Seq<char>)
    requires
        id.len() > 0,
    ensures
        cancel_id_of(cancel_path(id)) == Ok::<_, (u16, Seq<char>)>(id),
{
    reveal_strlit("/v1/tasks/");
    reveal_strlit(":cancel");
    let pre = tasks_prefix();
    let p3 = cancel_path(id);
    assert(p3.subrange(0, pre.len() as int) =~= pre);
    let rest3 = p3.subrange(pre.len() as int, p3.len() as int);
    assert(rest3 =~= id + ":cancel"@);
    assert(rest3.subrange(rest3.len() - 7, rest3.len() as int) =~= ":cancel"@);
    assert(rest3.subrange(0, rest3.len() - 7) =~= id);
}

/// The agent-side routing reads a lookup or cancellation path built by the
/// REST encoder back into the task id and history length it carries.
pub proof fn lemma_rest_paths_route_back(id: Seq<char>, n: u32)
    requires
        id.len() > 0,
        forall|i: int| 0 <= i < id.len() ==> #[trigger] id[i] != '?',
    ensures
        task_get_of(task_path(id)) == Ok::<_, (u16, Seq<char>)>((id, None::<u32>)),
        task_get_of(task_history_path(id, n as nat)) == Ok::<_, (u16, Seq<char>)>((id, Some(n))),
        cancel_id_of(cancel_path(id)) == Ok::<_, (u16, Seq<char>)>(id),
{
    lemma_lookup_path_back(id);
    lemma_history_path_back(id, n);
    lemma_cancel_path_back(id);
}

/// The operation an agent-side REST request names.
#[derive(Debug, Clone, PartialEq)]
pub enum RestRoute {
    SendMessage,
    GetTask { task_id: String, history_length: Option<u32> },
    CancelTask { task_id: String },
    ExtendedAgentCard,
}

/// A route as plain values, or the rejection (status, text).
pub type RouteView = Result<(int, Seq<char>, Option<u32>), (u16, Seq<char>)>;

pub open spec fn route_view(r: Result<RestRoute, (u16, String)>) -> RouteView {
    match r {
        Ok(RestRoute::SendMessage) => Ok((0, Seq::empty(), None)),
        Ok(RestRoute::GetTask { task_id, history_length }) => Ok((1, task_id@, history_length)),
        Ok(RestRoute::CancelTask { task_id }) => Ok((2, task_id@, None)),
        Ok(RestRoute::ExtendedAgentCard) => Ok((3, Seq::empty(), None)),
        Err((c, m)) => Err((c, m@)),
    }
}

/// Routing of `method` and `path`, in the order the handler tries them.
pub open spec fn route_of(method: Method, path: Seq<char>) -> RouteView {
    if method == Method::Post && path == "/v1/message:send"@ {
        Ok((0, Seq::empty(), None))
    } else if method == Method::Get && is_task_get_path(path) {
        match task_get_of(path) {
            Ok((id, h)) => Ok((1, id, h)),
            Err(e) => Err(e),
        }
    } else if method == Method::Post && starts_with_text(path, tasks_prefix()) && ends_with_text(
        path,
        ":cancel"@,
    ) {
        match cancel_id_of(path) {
            Ok(id) => Ok((2, id, None)),
            Err(e) => Err(e),
        }
    } else if method == Method::Get && path == "/v1/agentCard"@ {
        Ok((3, Seq::empty(), None))
    } else {
        Err((404u16, "Not Found"@))
    }
}

/// Routes an agent-side REST request to the operation it names.
pub fn route_rest(method: Method, path: &str) -> (r: Result<RestRoute, (u16, String)>)
    ensures
        route_view(r) == route_of(method, path@),
{
    if method == Method::Post && crate::types::str_equal(path, "/v1/message:send") {
        return Ok(RestRoute::SendMessage);
    }
    if method == Method::Get && is_task_get(path) {
        return match parse_task_get(path) {
            Ok((task_id, history_length)) => Ok(RestRoute::GetTask { task_id, history_length }),
            Err(e) => Err(e),
        };
    }
    if method == Method::Post && text_starts_with(path, "/v1/tasks/") && text_ends_with(path, ":cancel") {
        return match extract_task_id_before_action(path) {
            Ok(task_id) => Ok(RestRoute::CancelTask { task_id }),
            Err(e) => Err(e),
        };
    }
    if method == Method::Get && crate::types::str_equal(path, "/v1/agentCard") {
        return Ok(RestRoute::ExtendedAgentCard);
    }
    Err((404, String::from_str("Not Found")))
}

/// The operation a JSON-RPC method name selects.
#[derive(Debug, Clone, Copy, PartialEq, Eq, Structural)]
pub enum RpcRoute {
    MessageSend,
    TasksGet,
    TasksCancel,
    /// A streaming method, which this agent side does not serve.
    Streaming,
    MethodNotFound,
}

pub open spec fn rpc_route_of(m: Seq<char>) -> RpcRoute {
    if m == "message/send"@ {
        RpcRoute::MessageSend
    } else if m == "tasks/get"@ {
        RpcRoute::TasksGet
    } else if m == "tasks/cancel"@ {
        RpcRoute::TasksCancel
    } else if m == "message/stream"@ || m == "tasks/resubscribe"@ {
        RpcRoute::Streaming
    } else {
        RpcRoute::MethodNotFound
    }
}

/// Routes a JSON-RPC method name.
pub fn route_jsonrpc(method: &str) -> (r: RpcRoute)
    ensures
        r == rpc_route_of(method@),
{
    if crate::types::str_equal(method, "message/send") {
        RpcRoute::MessageSend
    } else if crate::types::str_equal(method, "tasks/get") {
        RpcRoute::TasksGet
    } else if crate::types::str_equal(method, "tasks/cancel") {
        RpcRoute::TasksCancel
    } else if crate::types::str_equal(method, "message/stream") || crate::types::str_equal(
        method,
        "tasks/resubscribe",
    ) {
        RpcRoute::Streaming
    } else {
        RpcRoute::MethodNotFound
    }
}

impl RpcRoute {
    /// The JSON-RPC error an agent answers with for a route it does not serve.
    pub fn rejection(&self) -> (r: Option<(i32, &'static str)>)
        ensures
            match *self {
                RpcRoute::Streaming => r matches Some((c, m)) && c == -32601 && m@
                    == "Streaming not implemented"@,
                RpcRoute::MethodNotFound => r matches Some((c, m)) && c == -32601 && m@
                    == "Method not found"@,
                _ => r is None,
            },
    {
        match self {
            RpcRoute::Streaming => Some((-32601, "Streaming not implemented")),
            RpcRoute::MethodNotFound => Some((-32601, "Method not found")),
            _ => None,
        }
    }
}

} // verus!
