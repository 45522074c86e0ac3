//! Readers for the text that the monitoring commands print: `free -m`,
//! `df -h /`, `/proc/loadavg`, `/proc/net/dev`, `ss -tunlp` and `top`.
use vstd::prelude::*;
use crate::text::{
    chars_of, copy_range, find_char, first_index, lines, parse_u64_chars, same_chars, split_lines,
    split_whitespace, string_of, strings_of, tokens, trim, trimmed, u64_or_zero, replace_commas,
    commas_to_spaces,
};
use crate::format::{bytes_text, format_bytes};

verus! {

/// "unknown", what a reader answers where the text has no value.
pub open spec fn unknown() -> Seq<char> {
    seq!['u', 'n', 'k', 'n', 'o', 'w', 'n']
}

/// The "unknown" text.
pub fn unknown_string() -> (s: String)
    ensures
        s@ == unknown(),
{
    let v: Vec<char> = vec!['u', 'n', 'k', 'n', 'o', 'w', 'n'];
    assert(v@ =~= unknown());
    string_of(v.as_slice())
}

/// The label of the memory line of `free`.
pub open spec fn mem_label() -> Seq<char> {
    seq!['M', 'e', 'm', ':']
}

/// (used, total) from the first of `ls` whose first field is "Mem:" and that
/// has at least three fields: the third field and the second, read as
/// numbers, each 0 where it is none; (0, 0) where no line is such.
pub open spec fn memory_in(ls: Seq<Seq<char>>) -> (u64, u64)
    decreases ls.len(),
{
    if ls.len() == 0 {
        (0, 0)
    } else {
        let t = tokens(ls[0]);
        if t.len() >= 3 && t[0] == mem_label() {
            (u64_or_zero(t[2]), u64_or_zero(t[1]))
        } else {
            memory_in(ls.drop_first())
        }
    }
}

/// What `parse_memory` reads from the output of `free -m`.
pub open spec fn memory_usage(output: Seq<char>) -> (u64, u64) {
    memory_in(lines(output))
}

/// `s.parse::<u64>().unwrap_or(0)`.
pub fn u64_or_zero_chars(s: &[char]) -> (v: u64)
    ensures
        v == u64_or_zero(s@),
{
    match parse_u64_chars(s) {
        Some(v) => v,
        None => 0,
    }
}

/// Used and total memory in MB from the output of `free -m`: the third and
/// second fields of the "Mem:" line.
pub fn parse_memory(output: &str) -> (r: (u64, u64))
    ensures
        r == memory_usage(output@),
{
    let cs = chars_of(output);
    let ls = split_lines(cs.as_slice());
    let ghost all = lines(output@);
    let label: Vec<char> = vec!['M', 'e', 'm', ':'];
    assert(label@ =~= mem_label());
    let mut i: usize = 0;
    proof {
        assert(all.skip(0) =~= all);
    }
    while i < ls.len()
        invariant
            i <= ls.len() == all.len(),
            all == lines(output@),
            label@ == mem_label(),
            forall|j: int| 0 <= j < ls.len() ==> #[trigger] ls[j]@ == all[j],
            memory_in(all) == memory_in(all.skip(i as int)),
        decreases ls.len() - i,
    {
        let parts = split_whitespace(ls[i].as_slice());
        proof {
            assert(all.skip(i as int)[0] == all[i as int]);
            assert(all.skip(i as int).drop_first() =~= all.skip(i + 1));
        }
        if parts.len() >= 3 && same_chars(parts[0].as_slice(), label.as_slice()) {
            let total = u64_or_zero_chars(parts[1].as_slice());
            let used = u64_or_zero_chars(parts[2].as_slice());
            return (used, total);
        }
        i = i + 1;
    }
    (0, 0)
}

/// (used, size) of the filesystem on the second line of `df -h /`: its third
/// and second fields, each "unknown" where that line or its third field is
/// missing.
pub open spec fn disk_usage(output: Seq<char>) -> (Seq<char>, Seq<char>) {
    let ls = lines(output);
    if ls.len() >= 2 && tokens(ls[1]).len() >= 3 {
        (tokens(ls[1])[2], tokens(ls[1])[1])
    } else {
        (unknown(), unknown())
    }
}

/// Used and total size of the root filesystem from the output of `df -h /`.
pub fn parse_disk(output: &str) -> (r: (String, String))
    ensures
        (r.0@, r.1@) == disk_usage(output@),
{
    let cs = chars_of(output);
    let ls = split_lines(cs.as_slice());
    if ls.len() >= 2 {
        let parts = split_whitespace(ls[1].as_slice());
        if parts.len() >= 3 {
            return (string_of(parts[2].as_slice()), string_of(parts[1].as_slice()));
        }
    }
    (unknown_string(), unknown_string())
}

/// The pieces of `parts` with `sep` between each two, as `[T]::join` gives them.
pub open spec fn join(parts: Seq<Seq<char>>, sep: Seq<char>) -> Seq<char>
    decreases parts.len(),
{
    if parts.len() == 0 {
        Seq::empty()
    } else if parts.len() == 1 {
        parts[0]
    } else {
        join(parts.drop_last(), sep) + sep + parts.last()
    }
}

/// " / ", the separator of the load averages.
pub open spec fn slash_sep() -> Seq<char> {
    seq![' ', '/', ' ']
}

/// The first three fields of `/proc/loadavg` joined by " / ", or "unknown"
/// where it has none.
pub open spec fn load_text(output: Seq<char>) -> Seq<char> {
    let t = tokens(output);
    let first = if t.len() > 3 {
        t.take(3)
    } else {
        t
    };
    if first.len() == 0 {
        unknown()
    } else {
        join(first, slash_sep())
    }
}

/// The 1, 5 and 15 minute load averages from `/proc/loadavg`: "0.10 / 0.20 / 0.30".
pub fn parse_load(output: &str) -> (s: String)
    ensures
        s@ == load_text(output@),
{
    let cs = chars_of(output);
    let parts = split_whitespace(cs.as_slice());
    let ghost t = tokens(output@);
    let n: usize = if parts.len() > 3 {
        3
    } else {
        parts.len()
    };
    let ghost first = if t.len() > 3 {
        t.take(3)
    } else {
        t
    };
    assert(first.len() == n);
    if n == 0 {
        return unknown_string();
    }
    let mut out: Vec<char> = Vec::new();
    let mut i: usize = 0;
    assert(first.take(0) =~= Seq::<Seq<char>>::empty());
    while i < n
        invariant
            i <= n <= parts.len(),
            n == first.len(),
            t == tokens(output@),
            parts.len() == t.len(),
            forall|j: int| 0 <= j < parts.len() ==> #[trigger] parts[j]@ == t[j],
            first == (if t.len() > 3 {
                t.take(3)
            } else {
                t
            }),
            out@ == join(first.take(i as int), slash_sep()),
        decreases n - i,
    {
        assert(first[i as int] == parts[i as int]@);
        assert(first.take(i + 1).drop_last() =~= first.take(i as int));
        if i > 0 {
            out.push(' ');
            out.push('/');
            out.push(' ');
        }
        let p = &parts[i];
        let mut k: usize = 0;
        let ghost before = out@;
        while k < p.len()
            invariant
                k <= p.len(),
                out@ == before + p@.take(k as int),
            decreases p.len() - k,
        {
            out.push(p[k]);
            assert(p@.take(k + 1) =~= p@.take(k as int).push(p@[k as int]));
            k = k + 1;
        }
        proof {
            assert(p@.take(p.len() as int) =~= p@);
            if i == 0 {
                assert(first.take(1) =~= seq![first[0]]);
            }
            assert(out@ =~= join(first.take(i + 1), slash_sep()));
        }
        i = i + 1;
    }
    assert(first.take(n as int) =~= first);
    string_of(out.as_slice())
}

/// The name of the loopback interface.
pub open spec fn loopback() -> Seq<char> {
    seq!['l', 'o']
}

/// (received, transmitted) bytes of one interface line of `/proc/net/dev`:
/// the first and ninth fields after the first colon, where the name before
/// it, trimmed, is not "lo" and at least sixteen fields follow; each field
/// read as a number, 0 where it is none.
pub open spec fn interface_counters(line: Seq<char>) -> Option<(u64, u64)> {
    match first_index(line, ':') {
        None => None,
        Some(k) => {
            let t = tokens(line.subrange(k + 1, line.len() as int));
            if trim(line.subrange(0, k)) == loopback() {
                None
            } else if t.len() >= 16 {
                Some((u64_or_zero(t[0]), u64_or_zero(t[8])))
            } else {
                None
            }
        },
    }
}

/// The lines of `/proc/net/dev` after its two header lines.
pub open spec fn interface_lines(output: Seq<char>) -> Seq<Seq<char>> {
    let ls = lines(output);
    if ls.len() > 2 {
        ls.skip(2)
    } else {
        Seq::empty()
    }
}

/// The received bytes of all counted interfaces of `ls`.
pub open spec fn received_sum(ls: Seq<Seq<char>>) -> nat
    decreases ls.len(),
{
    if ls.len() == 0 {
        0
    } else {
        received_sum(ls.drop_last()) + match interface_counters(ls.last()) {
            Some(c) => c.0 as nat,
            None => 0,
        }
    }
}

/// The transmitted bytes of all counted interfaces of `ls`.
pub open spec fn transmitted_sum(ls: Seq<Seq<char>>) -> nat
    decreases ls.len(),
{
    if ls.len() == 0 {
        0
    } else {
        transmitted_sum(ls.drop_last()) + match interface_counters(ls.last()) {
            Some(c) => c.1 as nat,
            None => 0,
        }
    }
}

/// Received bytes over all interfaces but the loopback, from `/proc/net/dev`.
pub open spec fn total_received(output: Seq<char>) -> nat {
    received_sum(interface_lines(output))
}

/// Transmitted bytes over all interfaces but the loopback, from `/proc/net/dev`.
pub open spec fn total_transmitted(output: Seq<char>) -> nat {
    transmitted_sum(interface_lines(output))
}

/// A sum over a prefix of lines is no more than that over all of them.
proof fn lemma_sums_prefix(ls: Seq<Seq<char>>, k: int)
    requires
        0 <= k <= ls.len(),
    ensures
        received_sum(ls.take(k)) <= received_sum(ls),
        transmitted_sum(ls.take(k)) <= transmitted_sum(ls),
    decreases ls.len(),
{
    if k < ls.len() {
        assert(ls.drop_last().take(k) =~= ls.take(k));
        lemma_sums_prefix(ls.drop_last(), k);
    } else {
        assert(ls.take(k) =~= ls);
    }
}

/// The counters of one interface line of `/proc/net/dev`.
pub fn interface_counters_of(line: &[char]) -> (r: Option<(u64, u64)>)
    ensures
        r == interface_counters(line@),
{
    match find_char(line, ':') {
        None => None,
        Some(k) => {
            let name = copy_range(line, 0, k);
            let data = copy_range(line, k + 1, line.len());
            let iface = trimmed(name.as_slice());
            let lo: Vec<char> = vec!['l', 'o'];
            assert(lo@ =~= loopback());
            if same_chars(iface.as_slice(), lo.as_slice()) {
                None
            } else {
                let parts = split_whitespace(data.as_slice());
                if parts.len() >= 16 {
                    Some((u64_or_zero_chars(parts[0].as_slice()), u64_or_zero_chars(parts[8].as_slice())))
                } else {
                    None
                }
            }
        },
    }
}

/// Received and transmitted bytes over all interfaces but the loopback, from
/// `/proc/net/dev`; `None` where a sum exceeds `u64::MAX`.
pub fn network_totals(output: &str) -> (r: Option<(u64, u64)>)
    ensures
        r is Some <==> total_received(output@) <= u64::MAX && total_transmitted(output@) <= u64::MAX,
        r matches Some(t) ==> t.0 == total_received(output@) && t.1 == total_transmitted(output@),
{
    let cs = chars_of(output);
    let ls = split_lines(cs.as_slice());
    let ghost all = lines(output@);
    let ghost rest = interface_lines(output@);
    let mut rx: u64 = 0;
    let mut tx: u64 = 0;
    if ls.len() <= 2 {
        return Some((0, 0));
    }
    let mut i: usize = 2;
    assert(rest.take(0) =~= Seq::<Seq<char>>::empty());
    while i < ls.len()
        invariant
            2 <= i <= ls.len() == all.len(),
            all == lines(output@),
            rest == interface_lines(output@),
            rest == all.skip(2),
            forall|j: int| 0 <= j < ls.len() ==> #[trigger] ls[j]@ == all[j],
            rx as nat == received_sum(rest.take(i - 2)),
            tx as nat == transmitted_sum(rest.take(i - 2)),
        decreases ls.len() - i,
    {
        let c = interface_counters_of(ls[i].as_slice());
        proof {
            assert(rest.take(i - 1).drop_last() =~= rest.take(i - 2));
            assert(rest.take(i - 1).last() == all[i as int]);
            lemma_sums_prefix(rest, i - 1);
        }
        match c {
            Some((r, t)) => {
                match (rx.checked_add(r), tx.checked_add(t)) {
                    (Some(a), Some(b)) => {
                        rx = a;
                        tx = b;
                    },
                    _ => {
                        return None;
                    },
                }
            },
            None => {},
        }
        i = i + 1;
    }
    assert(rest.take(i - 2) =~= rest);
    Some((rx, tx))
}

/// Received and transmitted bytes over all interfaces but the loopback, from
/// `/proc/net/dev`, each written by `format_bytes`.
pub fn parse_network_totals(output: &str) -> (r: (String, String))
    requires
        total_received(output@) <= u64::MAX,
        total_transmitted(output@) <= u64::MAX,
    ensures
        r.0@ == bytes_text(total_received(output@) as u64),
        r.1@ == bytes_text(total_transmitted(output@) as u64),
{
    match network_totals(output) {
        Some((rx, tx)) => (format_bytes(rx), format_bytes(tx)),
        None => {
            assert(false);
            (String::new(), String::new())
        },
    }
}

/// A socket of `ss -tunlp`.
#[derive(Clone, Debug, PartialEq, Eq)]
pub struct NetworkConnection {
    pub protocol: String,
    pub local: String,
    pub remote: String,
    pub state: String,
    pub process: String,
}

/// The text of each field of a socket.
pub struct ConnectionFields {
    pub protocol: Seq<char>,
    pub local: Seq<char>,
    pub remote: Seq<char>,
    pub state: Seq<char>,
    pub process: Seq<char>,
}

impl View for NetworkConnection {
    type V = ConnectionFields;

    open spec fn view(&self) -> ConnectionFields {
        ConnectionFields {
            protocol: self.protocol@,
            local: self.local@,
            remote: self.remote@,
            state: self.state@,
            process: self.process@,
        }
    }
}

/// The socket on one line of `ss -tunlp`, where it has at least six fields:
/// protocol, state, local and remote address are the first, second, fifth and
/// sixth fields, the process the seventh or empty.
pub open spec fn connection_of(line: Seq<char>) -> Option<ConnectionFields> {
    let t = tokens(line);
    if t.len() < 6 {
        None
    } else {
        Some(
            ConnectionFields {
                protocol: t[0],
                state: t[1],
                local: t[4],
                remote: t[5],
                process: if t.len() > 6 {
                    t[6]
                } else {
                    Seq::empty()
                },
            },
        )
    }
}

/// `connection_of` as a function value.
pub open spec fn connection_reader() -> spec_fn(Seq<char>) -> Option<ConnectionFields> {
    |line: Seq<char>| connection_of(line)
}

/// The lines of a table after its header line.
pub open spec fn table_rows(output: Seq<char>) -> Seq<Seq<char>> {
    let ls = lines(output);
    if ls.len() > 0 {
        ls.skip(1)
    } else {
        ls
    }
}

/// The sockets of `ss -tunlp`, one for each row with at least six fields.
pub open spec fn connections(output: Seq<char>) -> Seq<ConnectionFields> {
    table_rows(output).filter_map(connection_reader())
}

/// The sockets listed by `ss -tunlp`.
pub fn parse_connections(output: &str) -> (out: Vec<NetworkConnection>)
    ensures
        out.len() == connections(output@).len(),
        forall|i: int| 0 <= i < out.len() ==> #[trigger] out[i]@ == connections(output@)[i],
{
    let cs = chars_of(output);
    let ls = split_lines(cs.as_slice());
    let ghost all = lines(output@);
    let ghost rows = table_rows(output@);
    let mut out: Vec<NetworkConnection> = Vec::new();
    if ls.len() == 0 {
        assert(rows.filter_map(connection_reader()) =~= Seq::<ConnectionFields>::empty());
        return out;
    }
    let mut i: usize = 1;
    assert(rows.take(0) =~= Seq::<Seq<char>>::empty());
    while i < ls.len()
        invariant
            1 <= i <= ls.len() == all.len(),
            all == lines(output@),
            rows == all.skip(1),
            forall|j: int| 0 <= j < ls.len() ==> #[trigger] ls[j]@ == all[j],
            out.len() == rows.take(i - 1).filter_map(connection_reader()).len(),
            forall|j: int|
                0 <= j < out.len() ==> #[trigger] out[j]@ == rows.take(i - 1).filter_map(
                    connection_reader(),
                )[j],
        decreases ls.len() - i,
    {
        let parts = split_whitespace(ls[i].as_slice());
        let ghost prev = rows.take(i - 1).filter_map(connection_reader());
        proof {
            assert(rows.take(i as int).drop_last() =~= rows.take(i - 1));
            assert(rows.take(i as int).last() == all[i as int]);
        }
        if parts.len() >= 6 {
            let process = if parts.len() > 6 {
                string_of(parts[6].as_slice())
            } else {
                String::new()
            };
            let conn = NetworkConnection {
                protocol: string_of(parts[0].as_slice()),
                state: string_of(parts[1].as_slice()),
                local: string_of(parts[4].as_slice()),
                remote: string_of(parts[5].as_slice()),
                process,
            };
            out.push(conn);
            proof {
                let next = rows.take(i as int).filter_map(connection_reader());
                assert(next =~= prev + seq![connection_of(all[i as int]).unwrap()]);
                assert(conn@ == connection_of(all[i as int]).unwrap());
            }
        }
        i = i + 1;
    }
    assert(rows.take(i - 1) =~= rows);
    out
}

/// The fields of a line of `top -bn1` for the CPU, with commas read as spaces.
pub open spec fn cpu_fields(output: Seq<char>) -> Seq<Seq<char>> {
    tokens(commas_to_spaces(output))
}

/// The fields of the CPU line of `top`, commas read as spaces: "2.0", "us",
/// "1.0", "sy", ... The percentages are read from them where floating point
/// is at hand.
pub fn cpu_tokens(output: &str) -> (out: Vec<String>)
    ensures
        out.len() == cpu_fields(output@).len(),
        forall|i: int| 0 <= i < out.len() ==> #[trigger] out[i]@ == cpu_fields(output@)[i],
{
    let cs = chars_of(output);
    let normalized = replace_commas(cs.as_slice());
    let parts = split_whitespace(normalized.as_slice());
    strings_of(&parts)
}

/// The lines of a text, each as a `String`.
pub fn text_lines(output: &str) -> (out: Vec<String>)
    ensures
        out.len() == lines(output@).len(),
        forall|i: int| 0 <= i < out.len() ==> #[trigger] out[i]@ == lines(output@)[i],
{
    let cs = chars_of(output);
    let ls = split_lines(cs.as_slice());
    strings_of(&ls)
}

/// A text without its leading and trailing white space.
pub fn trimmed_string(s: &str) -> (out: String)
    ensures
        out@ == trim(s@),
{
    let cs = chars_of(s);
    let t = trimmed(cs.as_slice());
    string_of(t.as_slice())
}

} // verus!
