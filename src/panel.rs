use vstd::prelude::*;

use crate::controller::DEFAULT_PORT;
use crate::status::ServerStatus;

verus! {

/// A connection as the control panel lists it.
#[derive(Debug, Clone, Copy, PartialEq, Eq, Structural)]
pub struct ConnectionEntry {
    pub id: u32,
    /// False once the connection closed; the entry stays, hidden.
    pub shown: bool,
}

/// No two entries share an id.
pub open spec fn ids_unique(s: Seq<ConnectionEntry>) -> bool {
    forall|i: int, j: int| 0 <= i < s.len() && 0 <= j < s.len() && i != j ==> #[trigger] s[i].id != #[trigger] s[j].id
}

/// The position of the entry with id `id`, if there is one.
pub open spec fn position_of(s: Seq<ConnectionEntry>, id: u32) -> Option<int> {
    if exists|i: int| 0 <= i < s.len() && #[trigger] s[i].id == id {
        Some(choose|i: int| 0 <= i < s.len() && #[trigger] s[i].id == id)
    } else {
        None
    }
}

/// The entries after the connection `id` opened: its entry is shown again,
/// or a new shown entry comes last.
pub open spec fn after_opened(s: Seq<ConnectionEntry>, id: u32) -> Seq<ConnectionEntry> {
    match position_of(s, id) {
        Some(i) => s.update(i, ConnectionEntry { id, shown: true }),
        None => s.push(ConnectionEntry { id, shown: true }),
    }
}

/// The entries after the connection `id` closed: its entry, if any, is hidden.
pub open spec fn after_closed(s: Seq<ConnectionEntry>, id: u32) -> Seq<ConnectionEntry> {
    match position_of(s, id) {
        Some(i) => s.update(i, ConnectionEntry { id, shown: false }),
        None => s,
    }
}

/// The connections that the control panel lists, in the order they first
/// appeared.
pub struct ConnectionList {
    entries: Vec<ConnectionEntry>,
}

impl View for ConnectionList {
    type V = Seq<ConnectionEntry>;

    closed spec fn view(&self) -> Seq<ConnectionEntry> {
        self.entries@
    }
}

/// The index of the entry with id `id` among `entries`, if any.
fn find(entries: &Vec<ConnectionEntry>, id: u32) -> (r: Option<usize>)
    requires
        ids_unique(entries@),
    ensures
        match r {
            Some(i) => position_of(entries@, id) == Some(i as int),
            None => position_of(entries@, id) is None,
        },
{
    let mut i: usize = 0;
    while i < entries.len()
        invariant
            i <= entries@.len(),
            ids_unique(entries@),
            forall|j: int| 0 <= j < i ==> #[trigger] entries@[j].id != id,
        decreases entries@.len() - i,
    {
        if entries[i].id == id {
            let ghost s = entries@;
            proof {
                assert(s[i as int].id == id);
                let k = choose|k: int| 0 <= k < s.len() && #[trigger] s[k].id == id;
                assert(k == i);
            }
            return Some(i);
        }
        i = i + 1;
    }
    None
}

impl ConnectionList {
    /// No two entries share an id.
    #[verifier::type_invariant]
    spec fn ids_stay_unique(self) -> bool {
        ids_unique(self@)
    }

    pub fn new() -> (r: ConnectionList)
        ensures
            r@ == Seq::<ConnectionEntry>::empty(),
            ids_unique(r@),
    {
        ConnectionList { entries: Vec::new() }
    }

    pub fn len(&self) -> (r: usize)
        ensures
            r == self@.len(),
    {
        self.entries.len()
    }

    /// The server reported a new connection `id`.
    pub fn connection_opened(&mut self, id: u32)
        ensures
            ids_unique(final(self)@),
            final(self)@ == after_opened(old(self)@, id),
    {
        proof {
            use_type_invariant(&*self);
        }
        let mut taken = ConnectionList::new();
        std::mem::swap(self, &mut taken);
        let ConnectionList { entries: mut entries } = taken;
        match find(&entries, id) {
            Some(i) => {
                entries.set(i, ConnectionEntry { id, shown: true });
            },
            None => {
                entries.push(ConnectionEntry { id, shown: true });
            },
        }
        *self = ConnectionList { entries };
    }

    /// The server reported that connection `id` closed.
    pub fn connection_closed(&mut self, id: u32)
        ensures
            ids_unique(final(self)@),
            final(self)@ == after_closed(old(self)@, id),
    {
        proof {
            use_type_invariant(&*self);
        }
        let mut taken = ConnectionList::new();
        std::mem::swap(self, &mut taken);
        let ConnectionList { entries: mut entries } = taken;
        if let Some(i) = find(&entries, id) {
            entries.set(i, ConnectionEntry { id, shown: false });
        }
        *self = ConnectionList { entries };
    }

    /// The ids of the connections that are shown, in list order.
    pub fn shown_ids(&self) -> (r: Vec<u32>)
        ensures
            r@ == self@.filter(|e: ConnectionEntry| e.shown).map_values(|e: ConnectionEntry| e.id),
    {
        let ghost shown = |e: ConnectionEntry| e.shown;
        let ghost ids = |e: ConnectionEntry| e.id;
        let mut out: Vec<u32> = Vec::new();
        let mut i: usize = 0;
        while i < self.entries.len()
            invariant
                i <= self.entries@.len(),
                shown == (|e: ConnectionEntry| e.shown),
                ids == (|e: ConnectionEntry| e.id),
                out@ == self.entries@.subrange(0, i as int).filter(shown).map_values(ids),
            decreases self.entries@.len() - i,
        {
            let ghost before = self.entries@.subrange(0, i as int);
            let ghost upto = self.entries@.subrange(0, i + 1);
            proof {
                reveal(Seq::filter);
                assert(upto.drop_last() =~= before);
            }
            if self.entries[i].shown {
                out.push(self.entries[i].id);
                assert(upto.filter(shown) == before.filter(shown).push(self.entries@[i as int]));
                assert(out@ =~= upto.filter(shown).map_values(ids));
            } else {
                assert(upto.filter(shown) == before.filter(shown));
            }
            i = i + 1;
        }
        assert(self.entries@.subrange(0, i as int) =~= self.entries@);
        out
    }
}

/// The label of the start button.
pub fn start_label(status: ServerStatus) -> (r: &'static str)
    ensures
        status is Offline ==> r@ == "Start"@,
        !(status is Offline) ==> r@ == "Restart"@,
{
    match status {
        ServerStatus::Offline => "Start",
        _ => "Restart",
    }
}

/// Whether the panel offers to stop the server: only while it is online.
pub fn can_stop(status: ServerStatus) -> (r: bool)
    ensures
        r == (status is Online || status is OnlineNoIp),
{
    matches!(status, ServerStatus::Online { .. } | ServerStatus::OnlineNoIp)
}

pub open spec fn is_digit(c: char) -> bool {
    '0' <= c && c <= '9'
}

/// The value of a string of decimal digits.
pub open spec fn decimal_value(s: Seq<char>) -> nat
    decreases s.len(),
{
    if s.len() == 0 {
        0
    } else {
        decimal_value(s.drop_last()) * 10 + (s.last() as nat - '0' as nat) as nat
    }
}

/// Where the first digit of `s` stands, or the length when there is none.
pub open spec fn digits_start(s: Seq<char>) -> int
    decreases s.len(),
{
    if s.len() == 0 || is_digit(s[0]) {
        0
    } else {
        1 + digits_start(s.drop_first())
    }
}

/// Where the characters after the last digit of `s` start, or 0 when there
/// is no digit.
pub open spec fn digits_end(s: Seq<char>) -> int
    decreases s.len(),
{
    if s.len() == 0 || is_digit(s.last()) {
        s.len() as int
    } else {
        digits_end(s.drop_last())
    }
}

/// What is left of a typed port once the non-digits at both ends are cut.
pub open spec fn trimmed_port(s: Seq<char>) -> Seq<char> {
    if digits_start(s) < digits_end(s) {
        s.subrange(digits_start(s), digits_end(s))
    } else {
        Seq::empty()
    }
}

/// A typed port that the panel accepts, with the port it stands for.
#[derive(Debug, Clone, Copy, PartialEq, Eq, Structural)]
pub struct PortEntry {
    /// The accepted text is the input from `start` up to `end`.
    pub start: usize,
    pub end: usize,
    /// The port the text names; the default port when it is empty.
    pub port: u16,
}

/// Reads what was typed into the port field. The non-digits at both ends are
/// cut; what is left is accepted when it is empty or a decimal number that
/// fits a port. An empty entry stands for the default port.
pub fn port_input(raw: &Vec<char>) -> (r: Option<PortEntry>)
    ensures
        ({
            let t = trimmed_port(raw@);
            let ok = t.len() == 0 || ((forall|i: int| 0 <= i < t.len() ==> is_digit(#[trigger] t[i]))
                && decimal_value(t) <= u16::MAX);
            match r {
                Some(e) => {
                    &&& ok
                    &&& e.start <= e.end <= raw@.len()
                    &&& raw@.subrange(e.start as int, e.end as int) == t
                    &&& e.port == if t.len() == 0 { DEFAULT_PORT as nat } else { decimal_value(t) }
                },
                None => !ok,
            }
        }),
{
    let s = raw;
    let n = s.len();
    let mut start: usize = 0;
    assert(s@.subrange(0, n as int) =~= s@);
    while start < n && !('0' <= s[start] && s[start] <= '9')
        invariant
            n == s@.len(),
            s@ == raw@,
            start <= n,
            digits_start(s@) == start + digits_start(s@.subrange(start as int, n as int)),
        decreases n - start,
    {
        proof {
            let rest = s@.subrange(start as int, n as int);
            assert(rest.drop_first() =~= s@.subrange(start + 1, n as int));
        }
        start = start + 1;
    }
    proof {
        let rest = s@.subrange(start as int, n as int);
        assert(digits_start(rest) == 0);
    }
    let mut end: usize = n;
    while end > start && !('0' <= s[end - 1] && s[end - 1] <= '9')
        invariant
            n == s@.len(),
            s@ == raw@,
            start <= end <= n,
            digits_end(s@) == digits_end(s@.subrange(0, end as int)),
        decreases end,
    {
        proof {
            let pre = s@.subrange(0, end as int);
            assert(pre.drop_last() =~= s@.subrange(0, end - 1));
        }
        end = end - 1;
    }
    proof {
        lemma_digits_bounds(s@, start as int, end as int);
    }
    if start == end {
        assert(trimmed_port(s@) =~= s@.subrange(start as int, end as int));
        return Some(PortEntry { start, end, port: DEFAULT_PORT });
    }
    assert(trimmed_port(s@) =~= s@.subrange(start as int, end as int));
    let ghost t = s@.subrange(start as int, end as int);
    let mut value: u32 = 0;
    let mut i: usize = start;
    while i < end
        invariant
            start <= i <= end <= n,
            n == s@.len(),
            s@ == raw@,
            t == s@.subrange(start as int, end as int),
            t == trimmed_port(s@),
            start < end,
            forall|j: int| start <= j < i ==> is_digit(#[trigger] s@[j]),
            value as nat == decimal_value(s@.subrange(start as int, i as int)),
            value <= u16::MAX,
        decreases end - i,
    {
        let c = s[i];
        if !('0' <= c && c <= '9') {
            assert(!is_digit(t[i - start]));
            return None;
        }
        let d: u32 = (c as u32) - ('0' as u32);
        proof {
            let pre = s@.subrange(start as int, i + 1);
            assert(pre.drop_last() =~= s@.subrange(start as int, i as int));
            assert(decimal_value(pre) == decimal_value(s@.subrange(start as int, i as int)) * 10 + d);
        }
        if value * 10 + d > 65535 {
            proof {
                assert(t.subrange(0, (i + 1 - start) as int) =~= s@.subrange(start as int, i + 1));
                if forall|j: int| 0 <= j < t.len() ==> is_digit(#[trigger] t[j]) {
                    lemma_decimal_prefix_bound(t, (i + 1 - start) as int);
                }
            }
            return None;
        }
        value = value * 10 + d;
        i = i + 1;
    }
    assert forall|j: int| 0 <= j < t.len() implies is_digit(#[trigger] t[j]) by {
        assert(t[j] == s@[start + j]);
    }
    assert(s@.subrange(start as int, i as int) == t);
    Some(PortEntry { start, end, port: value as u16 })
}

proof fn lemma_digits_bounds(s: Seq<char>, start: int, end: int)
    requires
        0 <= start <= end <= s.len(),
        digits_start(s) == start + digits_start(s.subrange(start, s.len() as int)),
        start == s.len() || is_digit(s[start]),
        digits_end(s) == digits_end(s.subrange(0, end)),
        end == start || is_digit(s[end - 1]),
    ensures
        digits_start(s) < digits_end(s) <==> start < end,
        start < end ==> digits_start(s) == start && digits_end(s) == end,
{
    let rest = s.subrange(start, s.len() as int);
    if start < s.len() {
        assert(rest[0] == s[start]);
    }
    assert(digits_start(rest) == 0);
    if end > start {
        let pre = s.subrange(0, end);
        assert(pre.last() == s[end - 1]);
        assert(digits_end(pre) == end);
    } else {
        lemma_no_digit_end(s, start);
    }
}

/// When `s` has no digit at `k` or after, and `digits_end(s) == digits_end(s[..k])`
/// with `k` at or before the first digit, the trimmed text is empty.
proof fn lemma_no_digit_end(s: Seq<char>, k: int)
    requires
        0 <= k <= s.len(),
        digits_start(s) == k + digits_start(s.subrange(k, s.len() as int)),
        digits_end(s) == digits_end(s.subrange(0, k)),
        digits_start(s.subrange(k, s.len() as int)) == 0,
    ensures
        digits_end(s) <= digits_start(s),
{
    lemma_digits_end_at_most(s.subrange(0, k));
}

proof fn lemma_digits_end_at_most(s: Seq<char>)
    ensures
        digits_end(s) <= s.len(),
    decreases s.len(),
{
    if s.len() > 0 && !is_digit(s.last()) {
        lemma_digits_end_at_most(s.drop_last());
    }
}

/// The value of a digit string is at least the value of any of its prefixes.
proof fn lemma_decimal_prefix_bound(t: Seq<char>, k: int)
    requires
        0 <= k <= t.len(),
        forall|i: int| 0 <= i < t.len() ==> is_digit(#[trigger] t[i]),
    ensures
        decimal_value(t) >= decimal_value(t.subrange(0, k)),
    decreases t.len() - k,
{
    if k < t.len() {
        lemma_decimal_prefix_bound(t, k + 1);
        let p = t.subrange(0, k + 1);
        let q = t.subrange(0, k);
        assert(p.drop_last() =~= q);
        assert(is_digit(p.last()));
        assert(decimal_value(q) * 10 >= decimal_value(q)) by (nonlinear_arith);
    } else {
        assert(t.subrange(0, k) =~= t);
    }
}

} // verus!
