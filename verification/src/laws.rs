//! Properties of the library that hold on all inputs.
use vstd::prelude::*;
use crate::text::{
    decimal, decimal_value, digit_char, first_index, is_digit, is_space, leading_spaces, nonempty,
    parse_u64, space_sep, split_by, tokens, trailing_spaces, trim,
};
use crate::session::form_complete;
use crate::model::{ConnectionState, ServerConfig, ServerFields};
use crate::parse::{
    connection_of, connections, disk_usage, interface_counters, load_text, memory_in,
    memory_usage, received_sum, table_rows, total_received, total_transmitted, transmitted_sum,
};
use crate::text::lines;
use crate::service::service_status_text;
use crate::parse::cpu_fields;
use crate::text::commas_to_spaces;
use crate::format::{bytes_text, f64_spacing, one_decimal, round_tenths, to_f64};
use crate::session::AppState;
use crate::service::{is_monitoring_command, is_safe_service, probe_command, status_command, Probe};

verus! {

/// A character that a POSIX shell treats specially: white space, quoting,
/// expansion, redirection, pipes, command separators, globbing and comments.
pub open spec fn is_shell_special(c: char) -> bool {
    ||| is_space(c)
    ||| c == ';' || c == '&' || c == '|' || c == '$' || c == '`'
    ||| c == '\'' || c == '"' || c == '\\'
    ||| c == '<' || c == '>' || c == '(' || c == ')'
    ||| c == '*' || c == '?' || c == '[' || c == ']' || c == '{' || c == '}'
    ||| c == '~' || c == '#' || c == '!' || c == '='
}

/// A safe service name holds no character that a shell treats specially, so
/// that the status command runs `systemctl` with the name as one argument.
pub proof fn lemma_safe_service_is_one_word(name: Seq<char>)
    requires
        is_safe_service(name),
    ensures
        name.len() > 0,
        forall|i: int| 0 <= i < name.len() ==> !is_shell_special(#[trigger] name[i]),
{
    assert forall|i: int| 0 <= i < name.len() implies !is_shell_special(#[trigger] name[i]) by {
        assert(crate::service::is_service_char(name[i]));
    }
}

/// The monitor runs fixed commands only: each probe's command line, and the
/// status query of a safe service name.
pub proof fn lemma_only_monitoring_commands(p: Probe, name: Seq<char>)
    ensures
        is_monitoring_command(probe_command(p)),
        is_safe_service(name) ==> is_monitoring_command(status_command(name)),
{
    let c = probe_command(p);
    assert(c == probe_command(p));
    assert(exists|q: Probe| c == #[trigger] probe_command(q));
    if is_safe_service(name) {
        let d = status_command(name);
        assert(is_safe_service(name) && d == status_command(name));
        assert(exists|n: Seq<char>| is_safe_service(n) && d == #[trigger] status_command(n));
    }
}

/// No piece of a split holds a separator.
proof fn lemma_split_pieces_free(s: Seq<char>, sep: spec_fn(char) -> bool)
    ensures
        forall|i: int, j: int|
            0 <= i < split_by(s, sep).len() && 0 <= j < split_by(s, sep)[i].len() ==> !sep(
                #[trigger] split_by(s, sep)[i][j],
            ),
    decreases s.len(),
{
    if s.len() > 0 {
        lemma_split_pieces_free(s.drop_last(), sep);
        crate::text::lemma_split_by_len(s.drop_last(), sep);
    }
}

/// What holds of every element of a sequence holds of every element of a
/// filtered one.
proof fn lemma_filter_keeps(ps: Seq<Seq<char>>, keep: spec_fn(Seq<char>) -> bool, q: spec_fn(Seq<char>) -> bool)
    requires
        forall|i: int| 0 <= i < ps.len() ==> q(#[trigger] ps[i]),
    ensures
        forall|i: int| 0 <= i < ps.filter(keep).len() ==> q(#[trigger] ps.filter(keep)[i]),
    decreases ps.len(),
{
    reveal_with_fuel(Seq::filter, 1);
    if ps.len() > 0 {
        lemma_filter_keeps(ps.drop_last(), keep, q);
        let sub = ps.drop_last().filter(keep);
        assert forall|i: int| 0 <= i < ps.filter(keep).len() implies q(#[trigger] ps.filter(keep)[i]) by {
            if i < sub.len() {
                assert(ps.filter(keep)[i] == sub[i]);
            } else {
                assert(ps.filter(keep)[i] == ps.last());
            }
        }
    }
}

/// Each field that `split_whitespace` gives is a word: not empty, and free
/// of white space.
pub proof fn lemma_tokens_are_words(s: Seq<char>)
    ensures
        forall|i: int| 0 <= i < tokens(s).len() ==> #[trigger] tokens(s)[i].len() > 0,
        forall|i: int, j: int|
            0 <= i < tokens(s).len() && 0 <= j < tokens(s)[i].len() ==> !is_space(
                #[trigger] tokens(s)[i][j],
            ),
{
    let ps = split_by(s, space_sep());
    lemma_split_pieces_free(s, space_sep());
    let word = |p: Seq<char>| forall|j: int| 0 <= j < p.len() ==> !is_space(#[trigger] p[j]);
    assert forall|i: int| 0 <= i < ps.len() implies word(#[trigger] ps[i]) by {
        assert forall|j: int| 0 <= j < ps[i].len() implies !is_space(#[trigger] ps[i][j]) by {
            assert(!space_sep()(ps[i][j]));
        }
    }
    lemma_filter_keeps(ps, nonempty(), word);
    assert forall|i: int| 0 <= i < tokens(s).len() implies #[trigger] tokens(s)[i].len() > 0 by {
        ps.lemma_filter_pred(nonempty(), i);
    }
    assert forall|i: int, j: int|
        0 <= i < tokens(s).len() && 0 <= j < tokens(s)[i].len() implies !is_space(
        #[trigger] tokens(s)[i][j],
    ) by {
        assert(word(tokens(s)[i]));
    }
}

/// Below 2^53 bytes, `as f64` is exact.
pub proof fn lemma_small_counts_exact(n: nat)
    requires
        n < 0x20_0000_0000_0000,
    ensures
        to_f64(n) == n,
{
    assert(f64_spacing(n) == 1);
    assert(n / 1 == n && n % 1 == 0) by (nonlinear_arith);
}

/// A count under 1 KB is shown exactly, in bytes.
pub proof fn lemma_bytes_under_one_kb(bytes: u64)
    requires
        bytes < 1024,
    ensures
        bytes_text(bytes) == decimal(bytes as nat) + seq![' ', 'B'],
{
    lemma_small_counts_exact(bytes as nat);
}

/// The shown number of tenths is within half a tenth of the exact value:
/// `|tenths * unit - 10 * v| <= unit / 2`.
pub proof fn lemma_rounding_within_half_tenth(v: nat, unit: nat)
    requires
        unit > 0,
    ensures
        2 * (round_tenths(v, unit) * unit - v * 10) <= unit,
        2 * (v * 10 - round_tenths(v, unit) * unit) <= unit,
{
    let t = v * 10 / unit;
    let r = v * 10 % unit;
    assert(v * 10 == t * unit + r && 0 <= r < unit) by (nonlinear_arith)
        requires
            unit > 0,
            t == v * 10 / unit,
            r == v * 10 % unit,
    ;
    assert((t + 1) * unit == t * unit + unit) by (nonlinear_arith);
}

/// A whole number of units under 1024 is shown with ".0": `k` KB, MB or GB
/// for `1 <= k < 1024`.
pub proof fn lemma_whole_units(k: nat)
    requires
        1 <= k < 1024,
    ensures
        bytes_text((k * 1024) as u64) == decimal(k) + seq!['.', '0', ' ', 'K', 'B'],
        bytes_text((k * 1048576) as u64) == decimal(k) + seq!['.', '0', ' ', 'M', 'B'],
        bytes_text((k * 1073741824) as u64) == decimal(k) + seq!['.', '0', ' ', 'G', 'B'],
{
    assert(k * 1024 < 0x20_0000_0000_0000);
    assert(k * 1048576 < 0x20_0000_0000_0000);
    assert(k * 1073741824 < 0x20_0000_0000_0000);
    lemma_small_counts_exact(k * 1024);
    lemma_small_counts_exact(k * 1048576);
    lemma_small_counts_exact(k * 1073741824);
    lemma_whole_tenths(k, 1024);
    lemma_whole_tenths(k, 1048576);
    lemma_whole_tenths(k, 1073741824);
    assert(one_decimal(10 * k) =~= decimal(k).push('.').push('0')) by {
        assert((10 * k) / 10 == k && (10 * k) % 10 == 0) by (nonlinear_arith);
        assert(digit_char(0) == '0');
    }
    assert(decimal(k) + seq!['.', '0', ' ', 'K', 'B'] =~= one_decimal(10 * k) + seq![' ', 'K', 'B']);
    assert(decimal(k) + seq!['.', '0', ' ', 'M', 'B'] =~= one_decimal(10 * k) + seq![' ', 'M', 'B']);
    assert(decimal(k) + seq!['.', '0', ' ', 'G', 'B'] =~= one_decimal(10 * k) + seq![' ', 'G', 'B']);
}

/// `k` whole units are `10 * k` tenths.
proof fn lemma_whole_tenths(k: nat, unit: nat)
    requires
        unit > 0,
    ensures
        round_tenths(k * unit, unit) == 10 * k,
{
    assert((k * unit) * 10 / unit == 10 * k && (k * unit) * 10 % unit == 0) by (nonlinear_arith)
        requires
            unit > 0,
    {
        assert((k * unit) * 10 == (10 * k) * unit);
        vstd::arithmetic::div_mod::lemma_div_multiples_vanish((10 * k) as int, unit as int);
        vstd::arithmetic::div_mod::lemma_mod_multiples_basic((10 * k) as int, unit as int);
    }
}

/// Removing the server just added through the form gives back the server
/// list as it was: `add_draft_server` appends the form and selects it, and
/// `remove_selected_server` removes the selected server.
pub proof fn lemma_remove_undoes_add<S>(a: AppState<S>, b: AppState<S>, c: AppState<S>)
    requires
        b.config.servers@ == a.config.servers@.push(a.draft_server),
        b.selected_server == Some(a.config.servers.len()),
        c.config.servers@ == b.config.servers@.remove(b.selected_index()->0),
    ensures
        c.config.servers@ == a.config.servers@,
{
    assert(b.selected_index() == Some(a.config.servers.len() as int));
    assert(c.config.servers@ =~= a.config.servers@);
}

/// An ASCII letter of either case, an ASCII digit, or one of `.`, `_`, `-`,
/// `:`, `@`, told by its code point.
pub open spec fn ascii_name_char(c: char) -> bool {
    let u = c as int;
    ||| (65 <= u && u <= 90)
    ||| (97 <= u && u <= 122)
    ||| (48 <= u && u <= 57)
    ||| u == 46 || u == 95 || u == 45 || u == 58 || u == 64
}

/// A service name is safe exactly when it is not empty and each of its
/// characters is an ASCII letter of either case, an ASCII digit, or one of
/// `.`, `_`, `-`, `:`, `@`.
pub proof fn law_safe_service_alphabet(name: Seq<char>)
    ensures
        is_safe_service(name) <==> (name.len() > 0 && forall|i: int|
            0 <= i < name.len() ==> ascii_name_char(#[trigger] name[i])),
{
    assert forall|i: int| 0 <= i < name.len() implies (crate::service::is_service_char(
        #[trigger] name[i],
    ) <==> ascii_name_char(name[i])) by {
        let c = name[i];
    }
}

/// `a` and `b` are the same letter up to ASCII case: equal, or an ASCII
/// capital and the small letter 32 code points above it.
pub open spec fn same_letter_up_to_case(a: char, b: char) -> bool {
    let x = a as int;
    let y = b as int;
    ||| x == y
    ||| (65 <= x && x <= 90 && y == x + 32)
    ||| (65 <= y && y <= 90 && x == y + 32)
}

/// Letter case does not matter to whether a service name is safe: two names
/// that differ only in the case of ASCII letters are both safe or both not.
pub proof fn law_safe_service_ignores_case(a: Seq<char>, b: Seq<char>)
    requires
        a.len() == b.len(),
        forall|i: int| 0 <= i < a.len() ==> same_letter_up_to_case(#[trigger] a[i], b[i]),
    ensures
        is_safe_service(a) <==> is_safe_service(b),
{
    law_safe_service_alphabet(a);
    law_safe_service_alphabet(b);
    assert forall|i: int| 0 <= i < a.len() implies (ascii_name_char(#[trigger] a[i])
        <==> ascii_name_char(b[i])) by {
        assert(same_letter_up_to_case(a[i], b[i]));
    }
    if forall|i: int| 0 <= i < a.len() ==> ascii_name_char(#[trigger] a[i]) {
        assert forall|i: int| 0 <= i < b.len() implies ascii_name_char(#[trigger] b[i]) by {
            assert(ascii_name_char(a[i]));
        }
    }
    if forall|i: int| 0 <= i < b.len() ==> ascii_name_char(#[trigger] b[i]) {
        assert forall|i: int| 0 <= i < a.len() implies ascii_name_char(#[trigger] a[i]) by {
            assert(ascii_name_char(b[i]));
        }
    }
}

/// The white space that a text starts with is its first characters, and it
/// stops at a character that is not white space.
proof fn lemma_leading_spaces(s: Seq<char>)
    ensures
        0 <= leading_spaces(s) <= s.len(),
        forall|i: int| 0 <= i < leading_spaces(s) ==> is_space(#[trigger] s[i]),
        leading_spaces(s) < s.len() ==> !is_space(s[leading_spaces(s)]),
    decreases s.len(),
{
    if s.len() > 0 && is_space(s[0]) {
        lemma_leading_spaces(s.drop_first());
        assert forall|i: int| 0 <= i < leading_spaces(s) implies is_space(#[trigger] s[i]) by {
            if i > 0 {
                assert(s[i] == s.drop_first()[i - 1]);
            }
        }
    }
}

/// The white space that a text ends with is its last characters, and it
/// stops at a character that is not white space.
proof fn lemma_trailing_spaces(s: Seq<char>)
    ensures
        0 <= trailing_spaces(s) <= s.len(),
        forall|i: int| s.len() - trailing_spaces(s) <= i < s.len() ==> is_space(#[trigger] s[i]),
        trailing_spaces(s) < s.len() ==> !is_space(s[s.len() - trailing_spaces(s) - 1]),
    decreases s.len(),
{
    if s.len() > 0 && is_space(s.last()) {
        lemma_trailing_spaces(s.drop_last());
        assert forall|i: int| s.len() - trailing_spaces(s) <= i < s.len() implies is_space(
            #[trigger] s[i],
        ) by {
            if i < s.len() - 1 {
                assert(s[i] == s.drop_last()[i]);
            }
        }
    }
}

/// Whether a text holds a character that is not white space.
pub open spec fn has_visible(s: Seq<char>) -> bool {
    exists|i: int| 0 <= i < s.len() && !is_space(#[trigger] s[i])
}

/// A trimmed text is empty exactly when the text is all white space.
pub proof fn law_trim_empty_iff_blank(s: Seq<char>)
    ensures
        trim(s).len() > 0 <==> has_visible(s),
{
    lemma_leading_spaces(s);
    let lo = leading_spaces(s);
    let t = s.subrange(lo, s.len() as int);
    lemma_trailing_spaces(t);
    let tr = trailing_spaces(t);
    if has_visible(s) {
        let i = choose|i: int| 0 <= i < s.len() && !is_space(#[trigger] s[i]);
        assert(i >= lo);
        assert(t[i - lo] == s[i]);
        assert(tr < t.len());
    }
    if trim(s).len() > 0 {
        assert(tr < t.len());
        let j = t.len() - tr - 1;
        assert(t[j] == s[lo + j]);
        assert(!is_space(s[lo + j]));
    }
}

/// A server form is complete exactly when its name, host, user name and
/// private key path each hold a character that is not white space; a form
/// with a blank key path is never added.
pub proof fn law_form_needs_visible_fields(d: ServerFields)
    ensures
        form_complete(d) <==> (has_visible(d.name) && has_visible(d.host) && has_visible(
            d.username,
        ) && has_visible(d.private_key_path)),
{
    law_trim_empty_iff_blank(d.name);
    law_trim_empty_iff_blank(d.host);
    law_trim_empty_iff_blank(d.username);
    law_trim_empty_iff_blank(d.private_key_path);
}

/// Only three things keep a timer tick from refreshing: automatic refresh
/// being off, a busy worker, and the Disconnected state. In particular a
/// server in the Error state is retried.
pub proof fn law_auto_refresh_blockers<S>(s: AppState<S>)
    ensures
        s.auto_refresh_blocked() <==> (!s.auto_refresh || s.worker_busy || s.connection_state
            == ConnectionState::Disconnected),
        s.auto_refresh && !s.worker_busy && (s.connection_state == ConnectionState::Error
            || s.connection_state == ConnectionState::Connected || s.connection_state
            == ConnectionState::Refreshing || s.connection_state == ConnectionState::Connecting)
            ==> !s.auto_refresh_blocked(),
{
}

/// `first_index` finds the first occurrence: the position it gives holds
/// `c` and no earlier one does; it gives none exactly when `c` is absent.
pub proof fn law_first_index(s: Seq<char>, c: char)
    ensures
        first_index(s, c) matches Some(k) ==> 0 <= k < s.len() && s[k] == c && forall|j: int|
            0 <= j < k ==> s[j] != c,
        first_index(s, c) is None <==> forall|j: int| 0 <= j < s.len() ==> s[j] != c,
    decreases s.len(),
{
    if s.len() > 0 {
        law_first_index(s.drop_last(), c);
        let p = s.drop_last();
        assert forall|j: int| 0 <= j < p.len() implies p[j] == s[j] by {}
        if first_index(s, c) is None {
            assert forall|j: int| 0 <= j < s.len() implies s[j] != c by {
                if j < s.len() - 1 {
                    assert(p[j] == s[j]);
                }
            }
        }
    }
}

/// The decimal numeral of a number is all digits and has that value.
proof fn lemma_decimal_digits(n: nat)
    ensures
        decimal(n).len() > 0,
        forall|i: int| 0 <= i < decimal(n).len() ==> is_digit(#[trigger] decimal(n)[i]),
        decimal_value(decimal(n)) == n,
        decimal(n)[0] != '+',
    decreases n,
{
    if n < 10 {
        assert((digit_char(n) as int) == 48 + n);
        assert(('0' as int) == 48);
        assert(decimal(n).drop_last() =~= Seq::<char>::empty());
        assert(decimal(n).last() == digit_char(n));
        assert(decimal_value(decimal(n)) == decimal_value(Seq::<char>::empty()) * 10 + ((
            digit_char(n) as int - '0' as int) as nat));
    } else {
        lemma_decimal_digits(n / 10);
        let d = (n % 10) as nat;
        assert((digit_char(d) as int) == 48 + d);
        assert(('0' as int) == 48);
        assert(decimal(n).drop_last() =~= decimal(n / 10));
        assert(decimal(n).last() == digit_char(d));
        assert(decimal(n)[0] == decimal(n / 10)[0]);
        assert(decimal_value(decimal(n)) == (n / 10) * 10 + d);
        assert((n / 10) * 10 + n % 10 == n);
        assert forall|i: int| 0 <= i < decimal(n).len() implies is_digit(#[trigger] decimal(n)[i]) by {
            if i < decimal(n).len() - 1 {
                assert(decimal(n)[i] == decimal(n / 10)[i]);
            }
        }
    }
}

/// Reading a number back from its decimal numeral gives that number, for
/// every number a `u64` holds, whatever its size.
pub proof fn law_parse_reads_decimal(n: u64)
    ensures
        parse_u64(decimal(n as nat)) == Some(n),
{
    lemma_decimal_digits(n as nat);
    let d = decimal(n as nat);
    assert(crate::text::unsigned_digits(d) == d);
}

/// The counters of a line of `/proc/net/dev`: where its first colon ends a
/// name other than "lo" and sixteen or more fields follow, the received and
/// transmitted counts are the first and ninth of them, each as
/// `<u64 as FromStr>` reads it, whatever its size, or 0 where it does not
/// read as a `u64`; the loopback interface is never counted.
pub proof fn law_interface_counters(line: Seq<char>, k: int)
    requires
        first_index(line, ':') == Some(k),
    ensures
        ({
            let t = tokens(line.subrange(k + 1, line.len() as int));
            trim(line.subrange(0, k)) != seq!['l', 'o'] && t.len() >= 16 ==> (interface_counters(line)
                matches Some((rx, tx)) && (match parse_u64(t[0]) {
                Some(v) => rx == v,
                None => rx == 0,
            }) && (match parse_u64(t[8]) {
                Some(v) => tx == v,
                None => tx == 0,
            }))
        }),
        trim(line.subrange(0, k)) == seq!['l', 'o'] ==> interface_counters(line) is None,
{
}

/// Counting the interfaces of two runs of lines adds up.
pub proof fn law_traffic_sums_add(a: Seq<Seq<char>>, b: Seq<Seq<char>>)
    ensures
        received_sum(a + b) == received_sum(a) + received_sum(b),
        transmitted_sum(a + b) == transmitted_sum(a) + transmitted_sum(b),
    decreases b.len(),
{
    if b.len() == 0 {
        assert(a + b =~= a);
    } else {
        law_traffic_sums_add(a, b.drop_last());
        assert((a + b).drop_last() =~= a + b.drop_last());
        assert((a + b).last() == b.last());
    }
}

/// The socket of a row of `ss -tunlp`: a row of fewer than six fields gives
/// none; otherwise the protocol, state, local and peer address are its
/// first, second, fifth and sixth fields, whether or not a seventh (the
/// process) follows, and the process is the seventh field or empty.
pub proof fn law_connection_fields(line: Seq<char>)
    ensures
        connection_of(line) is None <==> tokens(line).len() < 6,
        tokens(line).len() >= 6 ==> ({
            let t = tokens(line);
            let c = connection_of(line)->0;
            &&& c.protocol == t[0]
            &&& c.state == t[1]
            &&& c.local == t[4]
            &&& c.remote == t[5]
            &&& (t.len() == 6 ==> c.process.len() == 0)
            &&& (t.len() > 6 ==> c.process == t[6])
        }),
{
}

/// A row of `free` that gives the memory figures: at least three fields, the
/// first being "Mem:".
pub open spec fn is_mem_row(line: Seq<char>) -> bool {
    tokens(line).len() >= 3 && tokens(line)[0] == seq!['M', 'e', 'm', ':']
}

/// A field read as `<u64 as FromStr>` reads it, 0 where it does not read.
pub open spec fn read_or_zero(s: Seq<char>) -> u64 {
    match parse_u64(s) {
        Some(v) => v,
        None => 0,
    }
}

proof fn lemma_memory_in(ls: Seq<Seq<char>>, k: int)
    requires
        0 <= k <= ls.len(),
        forall|j: int| 0 <= j < k ==> !is_mem_row(#[trigger] ls[j]),
    ensures
        k < ls.len() && is_mem_row(ls[k]) ==> memory_in(ls) == (read_or_zero(tokens(ls[k])[2]),
            read_or_zero(tokens(ls[k])[1])),
        k == ls.len() ==> memory_in(ls) == (0u64, 0u64),
    decreases k,
{
    if k > 0 {
        assert(!is_mem_row(ls[0]));
        let rest = ls.drop_first();
        assert forall|j: int| 0 <= j < k - 1 implies !is_mem_row(#[trigger] rest[j]) by {
            assert(rest[j] == ls[j + 1]);
        }
        lemma_memory_in(rest, k - 1);
        if k < ls.len() {
            assert(rest[k - 1] == ls[k]);
        }
    }
}

/// `free -m` is read from its first "Mem:" row of three or more fields:
/// used memory is the third field and total the second, each read as a
/// `u64` or 0; without such a row both are 0.
pub proof fn law_memory_from_first_mem_row(output: Seq<char>, k: int)
    requires
        0 <= k <= lines(output).len(),
        forall|j: int| 0 <= j < k ==> !is_mem_row(#[trigger] lines(output)[j]),
    ensures
        k < lines(output).len() && is_mem_row(lines(output)[k]) ==> memory_usage(output) == (
            read_or_zero(tokens(lines(output)[k])[2]),
            read_or_zero(tokens(lines(output)[k])[1]),
        ),
        k == lines(output).len() ==> memory_usage(output) == (0u64, 0u64),
{
    lemma_memory_in(lines(output), k);
}

/// `df -h /` is read from its second line: used space is its third field and
/// the size its second; without a second line of three fields both are
/// "unknown".
pub proof fn law_disk_from_second_line(output: Seq<char>)
    ensures
        lines(output).len() >= 2 && tokens(lines(output)[1]).len() >= 3 ==> disk_usage(output) == (
            tokens(lines(output)[1])[2],
            tokens(lines(output)[1])[1],
        ),
        !(lines(output).len() >= 2 && tokens(lines(output)[1]).len() >= 3) ==> disk_usage(output)
            == (seq!['u', 'n', 'k', 'n', 'o', 'w', 'n'], seq!['u', 'n', 'k', 'n', 'o', 'w', 'n']),
{
}

/// The load text shows the first three fields of `/proc/loadavg`, as many as
/// there are up to three, separated by " / ", or "unknown" without any.
pub proof fn law_load_text(output: Seq<char>)
    ensures
        ({
            let t = tokens(output);
            let sep = seq![' ', '/', ' '];
            &&& t.len() == 0 ==> load_text(output) == seq!['u', 'n', 'k', 'n', 'o', 'w', 'n']
            &&& t.len() == 1 ==> load_text(output) == t[0]
            &&& t.len() == 2 ==> load_text(output) == t[0] + sep + t[1]
            &&& t.len() >= 3 ==> load_text(output) == t[0] + sep + t[1] + sep + t[2]
        }),
{
    let t = tokens(output);
    let sep = seq![' ', '/', ' '];
    if t.len() >= 3 {
        let f = t.take(3);
        assert(f.drop_last() =~= t.take(2));
        assert(t.take(2).drop_last() =~= t.take(1));
        assert(crate::parse::join(t.take(1), sep) == t[0]);
        assert(crate::parse::join(t.take(2), sep) == t[0] + sep + t[1]);
        assert(crate::parse::join(f, sep) == t[0] + sep + t[1] + sep + t[2]);
        if t.len() == 3 {
            assert(f =~= t);
        }
    } else if t.len() == 2 {
        assert(t.drop_last() =~= t.take(1));
        assert(crate::parse::join(t.take(1), sep) == t[0]);
        assert(crate::parse::join(t, sep) == t[0] + sep + t[1]);
    } else if t.len() == 1 {
        assert(crate::parse::join(t, sep) == t[0]);
    }
}

proof fn lemma_filter_map_len<A, B>(s: Seq<A>, f: spec_fn(A) -> Option<B>)
    ensures
        s.filter_map(f).len() <= s.len(),
    decreases s.len(),
{
    if s.len() > 0 {
        lemma_filter_map_len(s.drop_last(), f);
    }
}

/// The header row of `ss` never gives a socket: there are no more sockets
/// than rows after the first line.
pub proof fn law_connections_skip_header(output: Seq<char>)
    ensures
        lines(output).len() > 0 ==> connections(output).len() <= lines(output).len() - 1,
        lines(output).len() == 0 ==> connections(output).len() == 0,
{
    lemma_filter_map_len(table_rows(output), crate::parse::connection_reader());
}

/// The two header lines of `/proc/net/dev` never count: two texts whose
/// lines agree after the first two have the same totals.
pub proof fn law_traffic_ignores_headers(a: Seq<char>, b: Seq<char>)
    requires
        lines(a).len() >= 2,
        lines(b).len() >= 2,
        lines(a).skip(2) == lines(b).skip(2),
    ensures
        total_received(a) == total_received(b),
        total_transmitted(a) == total_transmitted(b),
{
    if lines(a).len() == 2 {
        assert(lines(a).skip(2).len() == 0);
    }
    if lines(b).len() == 2 {
        assert(lines(b).skip(2).len() == 0);
    }
}

/// A service status is shown without white space around it: what the
/// status command answered or failed with, trimmed.
pub proof fn law_service_status_trimmed(outcome: Option<Result<String, String>>)
    ensures
        outcome is Some ==> ({
            let st = service_status_text(outcome);
            st.len() > 0 ==> !is_space(st[0]) && !is_space(st.last())
        }),
        outcome is None ==> service_status_text(outcome) == "invalid-name"@,
{
    match outcome {
        Some(Ok(x)) => lemma_trim_ends(x@),
        Some(Err(x)) => lemma_trim_ends(x@),
        None => {},
    }
}

/// A trimmed text neither starts nor ends with white space.
proof fn lemma_trim_ends(s: Seq<char>)
    ensures
        trim(s).len() > 0 ==> !is_space(trim(s)[0]) && !is_space(trim(s).last()),
{
    lemma_leading_spaces(s);
    let lo = leading_spaces(s);
    let t = s.subrange(lo, s.len() as int);
    lemma_trailing_spaces(t);
    if trim(s).len() > 0 {
        assert(trim(s)[0] == s[lo]);
        assert(trim(s).last() == t[t.len() - trailing_spaces(t) - 1]);
    }
}

/// Starting background work: with a server selected, the monitor enters the
/// given state, marks the worker busy, clears the error and hands out that
/// server; without one, it hands out nothing, keeps its state and asks for a
/// server. Nothing else changes.
pub proof fn law_starting_work<S>(
    old: AppState<S>,
    new: AppState<S>,
    r: Option<ServerConfig>,
    state: ConnectionState,
)
    requires
        AppState::starts_work(&old, &new, r, state),
    ensures
        new.config == old.config,
        new.selected_server == old.selected_server,
        new.snapshot == old.snapshot,
        new.auto_refresh == old.auto_refresh,
        new.auto_refresh_secs == old.auto_refresh_secs,
        old.selected_index() matches Some(i) ==> new.connection_state == state && new.worker_busy
            && new.error is None && r is Some && r->0@ == old.config.servers[i]@,
        old.selected_index() is None ==> r is None && new.connection_state
            == old.connection_state && new.worker_busy == old.worker_busy && new.error_text()
            == Some("Select a server first."@),
{
}

/// The spacing of the `f64` values around `n` is 1 below 2^53, and above it
/// leaves a 53-bit significand: `2^52 <= n / spacing < 2^53`.
pub proof fn law_f64_spacing(n: nat)
    ensures
        f64_spacing(n) >= 1,
        n < 0x20_0000_0000_0000 ==> f64_spacing(n) == 1,
        n >= 0x20_0000_0000_0000 ==> 0x10_0000_0000_0000 <= n / f64_spacing(n) < 0x20_0000_0000_0000,
    decreases n,
{
    if n >= 0x20_0000_0000_0000 {
        let m = n / 2;
        law_f64_spacing(m);
        let sp = f64_spacing(m);
        assert(f64_spacing(n) == 2 * sp);
        vstd::arithmetic::div_mod::lemma_div_denominator(n as int, 2, sp as int);
        assert(n / (2 * sp) == m / sp) by {
            assert(2 * sp == sp * 2) by (nonlinear_arith);
        }
        if m < 0x20_0000_0000_0000 {
            assert(m / 1 == m) by (nonlinear_arith);
        }
    }
}

/// `as f64` rounds to the nearest multiple of the spacing, ties to an even
/// multiple: the result is a multiple of the spacing, at most half a spacing
/// away from `n`, and at exactly half an even multiple.
pub proof fn law_f64_round_nearest_even(n: nat)
    ensures
        ({
            let p = f64_spacing(n);
            let v = to_f64(n);
            &&& v == (v / p) * p
            &&& 2 * (v - n) <= p
            &&& 2 * (n - v) <= p
            &&& (2 * (v - n) == p || 2 * (n - v) == p) ==> (v / p) % 2 == 0
        }),
{
    law_f64_spacing(n);
    let p = f64_spacing(n);
    let q = n / p;
    let r = n % p;
    assert(n == q * p + r && 0 <= r < p) by (nonlinear_arith)
        requires
            p >= 1,
            q == n / p,
            r == n % p,
    ;
    if 2 * r > p || (2 * r == p && q % 2 == 1) {
        assert(((q + 1) * p) / p == q + 1 && (q + 1) * p == q * p + p) by (nonlinear_arith)
            requires
                p >= 1,
        {
            vstd::arithmetic::div_mod::lemma_div_multiples_vanish((q + 1) as int, p as int);
        }
    } else {
        assert((q * p) / p == q) by (nonlinear_arith)
            requires
                p >= 1,
        {
            vstd::arithmetic::div_mod::lemma_div_multiples_vanish(q as int, p as int);
        }
    }
}

/// The tenths shown are the nearest to the exact value, ties to even.
pub proof fn law_tenths_ties_to_even(v: nat, unit: nat)
    requires
        unit > 0,
    ensures
        (2 * (round_tenths(v, unit) * unit - v * 10) == unit || 2 * (v * 10 - round_tenths(v, unit)
            * unit) == unit) ==> round_tenths(v, unit) % 2 == 0,
{
    let t = v * 10 / unit;
    let r = v * 10 % unit;
    assert(v * 10 == t * unit + r && 0 <= r < unit) by (nonlinear_arith)
        requires
            unit > 0,
            t == v * 10 / unit,
            r == v * 10 % unit,
    ;
    assert((t + 1) * unit == t * unit + unit) by (nonlinear_arith);
}

/// Every character of a piece of a split is a character of the text.
proof fn lemma_split_pieces_from(s: Seq<char>, sep: spec_fn(char) -> bool)
    ensures
        forall|i: int, j: int|
            0 <= i < split_by(s, sep).len() && 0 <= j < split_by(s, sep)[i].len() ==> s.contains(
                #[trigger] split_by(s, sep)[i][j],
            ),
    decreases s.len(),
{
    if s.len() > 0 {
        let p = s.drop_last();
        lemma_split_pieces_from(p, sep);
        crate::text::lemma_split_by_len(p, sep);
        assert forall|i: int, j: int|
            0 <= i < split_by(s, sep).len() && 0 <= j < split_by(s, sep)[i].len() implies s.contains(
            #[trigger] split_by(s, sep)[i][j],
        ) by {
            let c = split_by(s, sep)[i][j];
            let q = split_by(p, sep);
            if i < q.len() && j < q[i].len() {
                assert(c == q[i][j]);
                let w = choose|w: int| 0 <= w < p.len() && p[w] == c;
                assert(s[w] == c);
            } else {
                assert(c == s.last());
                assert(s[s.len() - 1] == c);
            }
        }
    }
}

/// The fields of the CPU line are words without commas or white space.
pub proof fn law_cpu_fields_are_words(output: Seq<char>)
    ensures
        forall|i: int, j: int|
            0 <= i < cpu_fields(output).len() && 0 <= j < cpu_fields(output)[i].len() ==> {
                let c = #[trigger] cpu_fields(output)[i][j];
                c != ',' && !is_space(c)
            },
        forall|i: int| 0 <= i < cpu_fields(output).len() ==> #[trigger] cpu_fields(output)[i].len() > 0,
{
    let n = commas_to_spaces(output);
    lemma_tokens_are_words(n);
    let ps = split_by(n, space_sep());
    lemma_split_pieces_from(n, space_sep());
    let from_n = |p: Seq<char>| forall|j: int| 0 <= j < p.len() ==> n.contains(#[trigger] p[j]);
    assert forall|i: int| 0 <= i < ps.len() implies from_n(#[trigger] ps[i]) by {
        assert forall|j: int| 0 <= j < ps[i].len() implies n.contains(#[trigger] ps[i][j]) by {}
    }
    lemma_filter_keeps(ps, nonempty(), from_n);
    assert forall|i: int, j: int|
        0 <= i < cpu_fields(output).len() && 0 <= j < cpu_fields(output)[i].len() implies {
        let c = #[trigger] cpu_fields(output)[i][j];
        c != ',' && !is_space(c)
    } by {
        let c = cpu_fields(output)[i][j];
        assert(from_n(tokens(n)[i]));
        assert(n.contains(c));
        let w = choose|w: int| 0 <= w < n.len() && n[w] == c;
        assert(n[w] != ',');
    }
}

/// The status query of a service is "systemctl is-active " followed by the
/// name, which ends the command.
pub proof fn law_status_command_text(name: Seq<char>)
    ensures
        crate::service::status_command(name) == "systemctl is-active "@ + name,
        crate::service::status_command(name).len() >= name.len(),
        crate::service::status_command(name).subrange(
            crate::service::status_command(name).len() - name.len(),
            crate::service::status_command(name).len() as int,
        ) == name,
{
    let c = crate::service::status_command(name);
    assert(c.subrange(c.len() - name.len(), c.len() as int) =~= name);
}

/// Two states with the same setup agree on the configuration, the selection,
/// the screen, both forms and the refresh settings.
pub proof fn law_same_setup<S>(a: AppState<S>, b: AppState<S>)
    requires
        a.same_setup(&b),
    ensures
        a.config == b.config,
        a.selected_server == b.selected_server,
        a.view == b.view,
        a.draft_server == b.draft_server,
        a.service_draft == b.service_draft,
        a.auto_refresh_secs == b.auto_refresh_secs,
        a.auto_refresh == b.auto_refresh,
{
}

} // verus!
