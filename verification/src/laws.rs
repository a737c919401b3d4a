use vstd::prelude::*;
use vstd::view::View as _;
use crate::app::{visible_processes, visible_ports, with_status, App, AppModel, InputMode, KeyCode, KeyEvent, KeyEventKind, KillOrderModel, View, VIEW_COUNT};
use crate::keys::{
    cycle_sort_step, key_step, kill_port_step, rate_message, MIN_COMMAND_RATE_MS, next_port_sort, next_process_sort, next_view, previous_view,
    slower_step, faster_step, table_first_step, table_last_step, table_next_step,
    FASTEST_KEY_RATE_MS, RATE_STEP_MS, SLOWEST_KEY_RATE_MS,
};
use crate::order::{comes_before, is_permutation, is_sorted_order, is_stable_sort, lemma_comes_before, KeyVal};
use crate::types::{history_after, HISTORY_CAPACITY, PortInfo, ProcessSortBy, PortSortBy};
use crate::collectors::ports::linux::{unowned_before, with_socket_owners};
use crate::collectors::ports::{port_key, port_keys};
use crate::collectors::process::{process_key, process_keys};
use crate::collectors::gpu::amd::{rocm_step, RocmState};
use crate::collectors::gpu::{number_field, trim_ws};
use crate::order::{key_lt, lemma_key_order, lex_lt};
use crate::text::{has_substring, lowercase};
use crate::types::ProcessInfo;
use crate::text::{all_digits, decimal, digit_char, digit_value, digits_value, flush, is_ws, parse_unsigned, words, words_from};

verus! {

pub open spec fn press(code: KeyCode) -> KeyEvent {
    KeyEvent { code, kind: KeyEventKind::Press }
}

/// A view reached by `k` presses of Tab.
pub open spec fn tab_n(v: View, k: nat) -> View
    decreases k,
{
    if k == 0 {
        v
    } else {
        next_view(tab_n(v, (k - 1) as nat))
    }
}

/// Tab walks the tabs in order, wrapping: `k` presses from a view reach the
/// view `k` tabs further on, so seven presses come back to the start.
pub proof fn law_tab_walks_all_views(v: View, k: nat)
    ensures
        tab_n(v, k) == View::at(((v.ordinal() + k) % (VIEW_COUNT as nat)) as int),
        tab_n(v, VIEW_COUNT as nat) == v,
    decreases k,
{
    lemma_tab_n(v, k);
    lemma_tab_n(v, VIEW_COUNT as nat);
    assert((v.ordinal() + 7) % 7 == v.ordinal());
}

proof fn lemma_tab_n(v: View, k: nat)
    ensures
        tab_n(v, k) == View::at(((v.ordinal() + k) % (VIEW_COUNT as nat)) as int),
    decreases k,
{
    if k > 0 {
        lemma_tab_n(v, (k - 1) as nat);
        let o = v.ordinal() as int;
        let j: int = (o + k - 1) % 7;
        assert(0 <= j < 7);
        assert(View::at(j).ordinal() == j);
        assert((o + k) % 7 == (j + 1) % 7) by {
            vstd::arithmetic::div_mod::lemma_add_mod_noop(o + k - 1, 1, 7);
        }
    } else {
        assert(v.ordinal() % 7 == v.ordinal());
    }
}

/// Shift+Tab undoes Tab and Tab undoes Shift+Tab.
pub proof fn law_backtab_undoes_tab(v: View)
    ensures
        previous_view(next_view(v)) == v,
        next_view(previous_view(v)) == v,
{
}

/// Key releases and repeats change nothing.
pub proof fn law_only_presses_count(m: AppModel, key: KeyEvent)
    requires
        key.kind != KeyEventKind::Press,
    ensures
        key_step(m, key) == (m, None::<crate::app::KillOrderModel>),
{
}

/// While the help is shown, `?` and Esc close it and every other key does
/// nothing.
pub proof fn law_help_swallows_keys(m: AppModel, code: KeyCode)
    requires
        m.input_mode == InputMode::Normal,
        m.show_help,
    ensures
        key_step(m, press(code)).1 is None,
        key_step(m, press(code)).0 == if code == KeyCode::Char('?') || code == KeyCode::Esc {
            AppModel { show_help: false, ..m }
        } else {
            m
        },
{
}

/// In the process table, moving down, to the top or to the bottom leaves a
/// row of the (filtered) table selected, whenever the table has rows.
pub proof fn law_selection_stays_in_table(m: AppModel)
    requires
        m.view == View::ProcessTable,
        visible_processes(m).len() > 0,
    ensures
        table_next_step(m).process_selected matches Some(i) && i < visible_processes(m).len(),
        table_last_step(m).process_selected == Some((visible_processes(m).len() - 1) as usize),
        table_first_step(m).process_selected == Some(0usize),
{
}

/// Four presses of `s` come back to the same process sort column; two presses
/// of `S` come back to the same direction.
pub proof fn law_sort_keys_cycle(by: ProcessSortBy, pby: PortSortBy, m: AppModel)
    requires
        m.view == View::ProcessTable,
    ensures
        next_process_sort(next_process_sort(next_process_sort(next_process_sort(by)))) == by,
        next_port_sort(next_port_sort(next_port_sort(next_port_sort(pby)))) == pby,
        cycle_sort_step(cycle_sort_step(m, true), true).process_sort_asc == m.process_sort_asc,
        cycle_sort_step(cycle_sort_step(m, true), true).process_sort_by == m.process_sort_by,
{
}

/// The sort settings of both tables.
pub open spec fn sort_settings(m: AppModel) -> (ProcessSortBy, bool, PortSortBy, bool) {
    (m.process_sort_by, m.process_sort_asc, m.port_sort_by, m.port_sort_asc)
}

/// In either table, `S` flips only that table's direction and `s` moves only
/// that table's column; two presses of `S`, or four of `s`, give back both
/// tables' sort settings. Outside the tables neither key changes anything.
pub proof fn law_sort_keys_restore(m: AppModel)
    ensures
        ({
            let r = cycle_sort_step(m, true);
            let f = cycle_sort_step(m, false);
            &&& m.view == View::ProcessTable ==> sort_settings(r) == (
                m.process_sort_by,
                !m.process_sort_asc,
                m.port_sort_by,
                m.port_sort_asc,
            ) && sort_settings(f) == (
                next_process_sort(m.process_sort_by),
                m.process_sort_asc,
                m.port_sort_by,
                m.port_sort_asc,
            )
            &&& m.view == View::PortTable ==> sort_settings(r) == (
                m.process_sort_by,
                m.process_sort_asc,
                m.port_sort_by,
                !m.port_sort_asc,
            ) && sort_settings(f) == (
                m.process_sort_by,
                m.process_sort_asc,
                next_port_sort(m.port_sort_by),
                m.port_sort_asc,
            )
            &&& (m.view != View::ProcessTable && m.view != View::PortTable) ==> r == m && f == m
        }),
        cycle_sort_step(m, true).view == m.view && cycle_sort_step(m, false).view == m.view,
        sort_settings(cycle_sort_step(cycle_sort_step(m, true), true)) == sort_settings(m),
        sort_settings(
            cycle_sort_step(cycle_sort_step(cycle_sort_step(cycle_sort_step(m, false), false), false), false),
        ) == sort_settings(m),
{
}

/// `+` then `-` restores the refresh period when `+` applies and `-` may
/// follow; `+` never drops the period below one millisecond and `-` never
/// lifts it past 10249.
pub proof fn law_rate_keys(m: AppModel)
    ensures
        FASTEST_KEY_RATE_MS < m.tick_rate_ms < SLOWEST_KEY_RATE_MS + RATE_STEP_MS ==> slower_step(
            faster_step(m),
        ).tick_rate_ms == m.tick_rate_ms,
        m.tick_rate_ms >= 1 ==> faster_step(m).tick_rate_ms >= 1,
        m.tick_rate_ms < SLOWEST_KEY_RATE_MS + RATE_STEP_MS ==> slower_step(m).tick_rate_ms
            < SLOWEST_KEY_RATE_MS + RATE_STEP_MS,
{
}

/// Typing a character into the filter and deleting it restores the filter;
/// Esc empties it and Enter keeps it, both leaving filter mode.
pub proof fn law_filter_typing(m: AppModel, c: char)
    requires
        m.input_mode == InputMode::Filter,
    ensures
        key_step(key_step(m, press(KeyCode::Char(c))).0, press(KeyCode::Backspace)).0.filter_input
            == m.filter_input,
        key_step(m, press(KeyCode::Esc)).0.filter_input == Seq::<char>::empty(),
        key_step(m, press(KeyCode::Esc)).0.input_mode == InputMode::Normal,
        key_step(m, press(KeyCode::Enter)).0.filter_input == m.filter_input,
        key_step(m, press(KeyCode::Enter)).0.input_mode == InputMode::Normal,
{
    assert(m.filter_input.push(c).drop_last() =~= m.filter_input);
}

/// Esc in the command palette discards what was typed and runs nothing.
pub proof fn law_palette_escape_discards(m: AppModel)
    requires
        m.input_mode == InputMode::CommandPalette,
    ensures
        key_step(m, press(KeyCode::Esc)) == (
            AppModel { input_mode: InputMode::Normal, command_input: seq![], command_error: None, ..m },
            None::<crate::app::KillOrderModel>,
        ),
{
}

/// Asking to kill the selected process and answering `y` orders exactly that
/// process killed and returns to normal mode; any other answer orders nothing.
pub proof fn law_kill_needs_confirmation(m: AppModel, answer: KeyCode)
    requires
        m.input_mode == InputMode::Normal,
        !m.show_help,
        m.view == View::ProcessTable,
        m.process_selected matches Some(i) && i < visible_processes(m).len(),
    ensures
        ({
            let asked = key_step(m, press(KeyCode::Char('K'))).0;
            let (after, order) = key_step(asked, press(answer));
            &&& asked.input_mode == InputMode::ConfirmKill
            &&& after.input_mode == InputMode::Normal
            &&& after.confirm_kill is None
            &&& (answer == KeyCode::Char('y') || answer == KeyCode::Char('Y')) ==> (order matches Some(o)
                && o.pid == visible_processes(m)[m.process_selected->0 as int].pid)
            &&& !(answer == KeyCode::Char('y') || answer == KeyCode::Char('Y')) ==> order is None
        }),
{
}

/// A rolling history never holds more than `HISTORY_CAPACITY` samples and
/// always ends with the newest one.
pub proof fn law_history_bounded(h: Seq<u32>, sample: u32)
    requires
        h.len() <= HISTORY_CAPACITY,
    ensures
        history_after(h, sample).len() <= HISTORY_CAPACITY,
        history_after(h, sample).last() == sample,
        h.len() < HISTORY_CAPACITY ==> history_after(h, sample) == h.push(sample),
{
}


/// Every position `0..n` occurs in a permutation of `0..n`.
pub proof fn lemma_permutation_covers(p: Seq<usize>, n: nat, k: int)
    requires
        is_permutation(p, n),
        0 <= k < n,
    ensures
        exists|i: int| 0 <= i < p.len() && p[i] == k,
{
    let s = p.map_values(|x: usize| x as int);
    assert(s.no_duplicates()) by {
        assert forall|a: int, b: int| 0 <= a < s.len() && 0 <= b < s.len() && a != b implies s[a] != s[b] by {
            if a < b {
                assert(p[a] != p[b]);
            } else {
                assert(p[b] != p[a]);
            }
        }
    }
    s.unique_seq_to_set();
    let range = vstd::set_lib::set_int_range(0, n as int);
    vstd::set_lib::lemma_int_range(0, n as int);
    assert(s.to_set().subset_of(range)) by {
        assert forall|x: int| s.to_set().contains(x) implies range.contains(x) by {
            let i = choose|i: int| 0 <= i < s.len() && s[i] == x;
            assert(p[i] < n);
        }
    }
    vstd::set_lib::lemma_len_subset(s.to_set(), range);
    vstd::set_lib::lemma_subset_equality(s.to_set(), range);
    assert(range.contains(k));
    assert(s.to_set().contains(k));
    let i = choose|i: int| 0 <= i < s.len() && s[i] == k;
    assert(p[i] == k);
}

proof fn lemma_sorted_prefix_equal(p: Seq<usize>, q: Seq<usize>, keys: Seq<KeyVal>, ascending: bool, a: int)
    requires
        is_permutation(p, keys.len()),
        is_permutation(q, keys.len()),
        is_sorted_order(p, keys, ascending),
        is_sorted_order(q, keys, ascending),
        0 <= a < keys.len(),
    ensures
        forall|b: int| 0 <= b <= a ==> p[b] == q[b],
    decreases a,
{
    if a > 0 {
        lemma_sorted_prefix_equal(p, q, keys, ascending, a - 1);
    }
    let x = p[a];
    let y = q[a];
    if x != y {
        lemma_permutation_covers(p, keys.len(), y as int);
        lemma_permutation_covers(q, keys.len(), x as int);
        let c = choose|i: int| 0 <= i < p.len() && p[i] == y;
        let b = choose|i: int| 0 <= i < q.len() && q[i] == x;
        if c < a {
            assert(q[c] == p[c]);
            assert(q[c] != q[a]);
        }
        if b < a {
            assert(p[b] == q[b]);
            assert(p[b] != p[a]);
        }
        assert(c > a && b > a);
        assert(comes_before(keys, ascending, p[a] as int, p[c] as int));
        assert(comes_before(keys, ascending, q[a] as int, q[b] as int));
        lemma_comes_before(keys, ascending, x as int, y as int, 0);
        assert(false);
    }
}

/// A stable sort has one result: any two results of stably sorting the same
/// rows by the same keys are equal.
pub proof fn law_stable_sort_unique<T>(out1: Seq<T>, out2: Seq<T>, inp: Seq<T>, keys: Seq<KeyVal>, ascending: bool)
    requires
        keys.len() == inp.len(),
        is_stable_sort(out1, inp, keys, ascending),
        is_stable_sort(out2, inp, keys, ascending),
    ensures
        out1 == out2,
{
    let p = choose|p: Seq<usize>|
        is_permutation(p, inp.len()) && is_sorted_order(p, keys, ascending) && out1.len() == inp.len()
            && forall|i: int| 0 <= i < out1.len() ==> out1[i] == inp[p[i] as int];
    let q = choose|q: Seq<usize>|
        is_permutation(q, inp.len()) && is_sorted_order(q, keys, ascending) && out2.len() == inp.len()
            && forall|i: int| 0 <= i < out2.len() ==> out2[i] == inp[q[i] as int];
    if inp.len() > 0 {
        lemma_sorted_prefix_equal(p, q, keys, ascending, inp.len() - 1);
    }
    assert(out1 =~= out2) by {
        assert forall|i: int| 0 <= i < out1.len() implies out1[i] == out2[i] by {
            assert(p[i] == q[i]);
        }
    }
}

/// Sorting keeps the rows: every result row is an input row, every input row
/// is in the result, and the length is unchanged.
pub proof fn law_sort_keeps_rows<T>(out: Seq<T>, inp: Seq<T>, keys: Seq<KeyVal>, ascending: bool)
    requires
        is_stable_sort(out, inp, keys, ascending),
    ensures
        out.len() == inp.len(),
        forall|i: int| 0 <= i < out.len() ==> inp.contains(#[trigger] out[i]),
        forall|j: int| 0 <= j < inp.len() ==> out.contains(#[trigger] inp[j]),
{
    let p = choose|p: Seq<usize>|
        is_permutation(p, inp.len()) && is_sorted_order(p, keys, ascending) && out.len() == inp.len()
            && forall|i: int| 0 <= i < out.len() ==> out[i] == inp[p[i] as int];
    assert forall|i: int| 0 <= i < out.len() implies inp.contains(#[trigger] out[i]) by {
        assert(inp[p[i] as int] == out[i]);
    }
    assert forall|j: int| 0 <= j < inp.len() implies out.contains(#[trigger] inp[j]) by {
        lemma_permutation_covers(p, inp.len(), j);
        let i = choose|i: int| 0 <= i < p.len() && p[i] == j;
        assert(out[i] == inp[j]);
    }
}

/// The filter only hides rows: every shown row is a table row, shown in
/// table order, and an empty filter shows every row.
pub proof fn law_filter_only_hides(m: AppModel)
    ensures
        forall|i: int| 0 <= i < visible_processes(m).len() ==> m.processes.contains(#[trigger] visible_processes(m)[i]),
        forall|i: int| 0 <= i < visible_ports(m).len() ==> m.ports.contains(#[trigger] visible_ports(m)[i]),
        visible_processes(m).len() <= m.processes.len(),
        visible_ports(m).len() <= m.ports.len(),
        m.filter_input.len() == 0 ==> visible_processes(m) == m.processes && visible_ports(m) == m.ports,
{
    if m.filter_input.len() > 0 {
        let f = crate::text::lowercase(m.filter_input);
        let pp = |p: crate::types::ProcessInfo| crate::app::process_matches(p, f);
        let pq = |p: crate::types::PortInfo| crate::app::port_matches(p, f);
        m.processes.lemma_filter_len(pp);
        m.ports.lemma_filter_len(pq);
        assert forall|i: int| 0 <= i < visible_processes(m).len() implies m.processes.contains(#[trigger] visible_processes(m)[i]) by {
            assert(m.processes.filter(pp).contains(visible_processes(m)[i]));
            m.processes.lemma_filter_contains_rev(pp, visible_processes(m)[i]);
        }
        assert forall|i: int| 0 <= i < visible_ports(m).len() implies m.ports.contains(#[trigger] visible_ports(m)[i]) by {
            assert(m.ports.filter(pq).contains(visible_ports(m)[i]));
            m.ports.lemma_filter_contains_rev(pq, visible_ports(m)[i]);
        }
    }
}


proof fn lemma_decimal_digits(n: nat)
    ensures
        decimal(n).len() > 0,
        all_digits(decimal(n), 10),
        digits_value(decimal(n), 10) == n,
        decimal(n)[0] != '+',
    decreases n,
{
    let d = n % 10;
    assert(digit_value(digit_char(d), 10) == Some(d));
    if n >= 10 {
        lemma_decimal_digits(n / 10);
        let s = decimal(n);
        assert(s.drop_last() =~= decimal(n / 10));
        assert forall|i: int| 0 <= i < s.len() implies #[trigger] digit_value(s[i], 10) is Some by {
            if i < s.len() - 1 {
                assert(s[i] == decimal(n / 10)[i]);
            }
        }
        assert(s[0] == decimal(n / 10)[0]);
        assert(s.last() == digit_char(d));
        assert((n / 10) * 10 + n % 10 == n) by {
            vstd::arithmetic::div_mod::lemma_fundamental_div_mod(n as int, 10);
        }
        assert(digits_value(s.drop_last(), 10) == n / 10);
        assert(digits_value(s, 10) == digits_value(s.drop_last(), 10) * 10 + d);
        assert(digits_value(s, 10) == n);
    } else {
        let s = decimal(n);
        assert(s.drop_last() =~= Seq::<char>::empty());
        assert(digits_value(s.drop_last(), 10) == 0);
        assert(s.last() == digit_char(d));
    }
}

/// Printing a number and parsing it back gives the number, whenever it fits
/// the parsed type; so a period or PID that the monitor prints can be typed
/// back into a command.
pub proof fn law_decimal_parses_back(n: nat, max: nat)
    requires
        n <= max,
    ensures
        parse_unsigned(decimal(n), 10, max) == Some(n),
{
    lemma_decimal_digits(n);
}


/// No character of `s[i..]` is whitespace.
pub open spec fn no_ws_from(s: Seq<char>, i: int) -> bool {
    forall|j: int| i <= j < s.len() ==> !is_ws(#[trigger] s[j])
}

/// Over characters that are not whitespace, splitting only gathers them.
proof fn lemma_words_gather(s: Seq<char>, i: int, k: int, cur: Seq<char>)
    requires
        0 <= i <= k <= s.len(),
        forall|j: int| i <= j < k ==> !is_ws(#[trigger] s[j]),
    ensures
        words_from(s, i, cur) == words_from(s, k, cur + s.subrange(i, k)),
    decreases k - i,
{
    if i < k {
        lemma_words_gather(s, i + 1, k, cur.push(s[i]));
        assert(cur.push(s[i]) + s.subrange(i + 1, k) =~= cur + s.subrange(i, k));
    } else {
        assert(cur + s.subrange(i, k) =~= cur);
    }
}

/// A command word, one space and an argument, neither holding whitespace,
/// split into those two words.
proof fn lemma_command_words(word: Seq<char>, arg: Seq<char>)
    requires
        word.len() > 0,
        arg.len() > 0,
        no_ws_from(word, 0),
        no_ws_from(arg, 0),
    ensures
        words(word + seq![' '] + arg) == seq![word, arg],
{
    let s = word + seq![' '] + arg;
    let k = word.len() as int;
    assert forall|j: int| 0 <= j < k implies !is_ws(#[trigger] s[j]) by {
        assert(s[j] == word[j]);
    }
    lemma_words_gather(s, 0, k, seq![]);
    assert(Seq::<char>::empty() + s.subrange(0, k) =~= word);
    assert(is_ws(s[k]));
    assert forall|j: int| k + 1 <= j < s.len() implies !is_ws(#[trigger] s[j]) by {
        assert(s[j] == arg[j - k - 1]);
    }
    lemma_words_gather(s, k + 1, s.len() as int, seq![]);
    assert(Seq::<char>::empty() + s.subrange(k + 1, s.len() as int) =~= arg);
    assert(words_from(s, s.len() as int, arg) == flush(arg));
    assert(flush(word) + flush(arg) =~= seq![word, arg]);
}

/// A decimal number holds no whitespace.
proof fn lemma_decimal_no_ws(n: nat)
    ensures
        decimal(n).len() > 0,
        no_ws_from(decimal(n), 0),
{
    lemma_decimal_digits(n);
    assert forall|j: int| 0 <= j < decimal(n).len() implies !is_ws(#[trigger] decimal(n)[j]) by {
        assert(digit_value(decimal(n)[j], 10) is Some);
    }
}

/// Typing `kill` and a PID into the command palette and pressing Enter
/// orders that process killed and closes the palette.
pub proof fn law_kill_command(m: AppModel, pid: u32)
    requires
        m.input_mode == InputMode::CommandPalette,
        m.command_input == "kill "@ + decimal(pid as nat),
    ensures
        key_step(m, press(KeyCode::Enter)) == (
            AppModel { input_mode: InputMode::Normal, command_input: seq![], ..m },
            Some(
                KillOrderModel {
                    pid,
                    success_message: "Killed PID "@ + decimal(pid as nat),
                    failure_prefix: "Failed: "@,
                },
            ),
        ),
{
    reveal_strlit("kill ");
    reveal_strlit("kill");
    reveal_strlit("q");
    reveal_strlit("quit");
    lemma_decimal_no_ws(pid as nat);
    assert("kill "@ =~= "kill"@ + seq![' ']);
    assert(m.command_input =~= "kill"@ + seq![' '] + decimal(pid as nat));
    lemma_command_words("kill"@, decimal(pid as nat));
    law_decimal_parses_back(pid as nat, u32::MAX as nat);
}

/// Typing `rate` and a period of at least 100 ms into the command palette
/// and pressing Enter sets the refresh period and reports it.
pub proof fn law_rate_command(m: AppModel, ms: u64)
    requires
        m.input_mode == InputMode::CommandPalette,
        m.command_input == "rate "@ + decimal(ms as nat),
        ms >= MIN_COMMAND_RATE_MS,
    ensures
        key_step(m, press(KeyCode::Enter)) == (
            AppModel {
                input_mode: InputMode::Normal,
                command_input: seq![],
                ..with_status(AppModel { tick_rate_ms: ms, ..m }, rate_message(ms))
            },
            None::<KillOrderModel>,
        ),
{
    reveal_strlit("rate ");
    reveal_strlit("rate");
    reveal_strlit("q");
    reveal_strlit("quit");
    reveal_strlit("kill");
    reveal_strlit("kill-port");
    lemma_decimal_no_ws(ms as nat);
    assert("rate "@ =~= "rate"@ + seq![' ']);
    assert(m.command_input =~= "rate"@ + seq![' '] + decimal(ms as nat));
    lemma_command_words("rate"@, decimal(ms as nat));
    law_decimal_parses_back(ms as nat, u64::MAX as nat);
}

/// Esc goes back to the dashboard from any other view, clearing the filter,
/// and quits from the dashboard.
pub proof fn law_escape_goes_back(m: AppModel)
    requires
        m.input_mode == InputMode::Normal,
        !m.show_help,
    ensures
        ({
            let after = key_step(m, press(KeyCode::Esc)).0;
            &&& m.view != View::Dashboard ==> after == (AppModel { view: View::Dashboard, filter_input: seq![], ..m })
            &&& m.view == View::Dashboard ==> after == (AppModel { running: false, ..m })
        }),
{
}

/// The number keys 1 to 7 jump to the tab of that number.
pub proof fn law_number_keys_jump(m: AppModel, d: nat)
    requires
        m.input_mode == InputMode::Normal,
        !m.show_help,
        1 <= d <= VIEW_COUNT,
    ensures
        key_step(m, press(KeyCode::Char(digit_char(d)))).0 == (AppModel { view: View::at(d - 1), ..m }),
{
    assert(digit_char(d) == '1' || digit_char(d) == '2' || digit_char(d) == '3' || digit_char(d) == '4'
        || digit_char(d) == '5' || digit_char(d) == '6' || digit_char(d) == '7');
}

/// Typing `kill-port` and a port number into the command palette and
/// pressing Enter orders killed the process that owns that port (the first
/// row with that local port), or reports that none does.
pub proof fn law_kill_port_command(m: AppModel, port: u16)
    requires
        m.input_mode == InputMode::CommandPalette,
        m.command_input == "kill-port "@ + decimal(port as nat),
    ensures
        ({
            let (m2, order) = kill_port_step(m, port);
            key_step(m, press(KeyCode::Enter)) == (
                AppModel { input_mode: InputMode::Normal, command_input: seq![], ..m2 },
                order,
            )
        }),
{
    reveal_strlit("kill-port ");
    reveal_strlit("kill-port");
    reveal_strlit("kill");
    reveal_strlit("q");
    reveal_strlit("quit");
    lemma_decimal_no_ws(port as nat);
    assert("kill-port "@ =~= "kill-port"@ + seq![' ']);
    assert(m.command_input =~= "kill-port"@ + seq![' '] + decimal(port as nat));
    lemma_command_words("kill-port"@, decimal(port as nat));
    law_decimal_parses_back(port as nat, u16::MAX as nat);
}

/// `:q` and `:quit` stop the monitor.
pub proof fn law_quit_command(m: AppModel, cmd: Seq<char>)
    requires
        m.input_mode == InputMode::CommandPalette,
        m.command_input == cmd,
        cmd == "q"@ || cmd == "quit"@,
    ensures
        !key_step(m, press(KeyCode::Enter)).0.running,
        key_step(m, press(KeyCode::Enter)).1 is None,
{
    reveal_strlit("q");
    reveal_strlit("quit");
    lemma_words_gather(cmd, 0, cmd.len() as int, seq![]);
    assert(Seq::<char>::empty() + cmd.subrange(0, cmd.len() as int) =~= cmd);
    assert(words(cmd) =~= seq![cmd]);
}

/// The first row at or after `i` that has no owner.
pub open spec fn first_unowned(rows: Seq<PortInfo>, i: int) -> Option<int>
    decreases rows.len() - i,
{
    if i < 0 || i >= rows.len() {
        None
    } else if rows[i].pid is None {
        Some(i)
    } else {
        first_unowned(rows, i + 1)
    }
}

/// One socket's owner handed to the first row without an owner, if any.
pub open spec fn give_first_unowned(rows: Seq<PortInfo>, pid: u32) -> Seq<PortInfo> {
    match first_unowned(rows, 0) {
        Some(f) => rows.update(f, PortInfo { pid: Some(pid), ..rows[f] }),
        None => rows,
    }
}

/// The sockets' owners handed out one socket at a time, in order.
pub open spec fn give_each_owner(rows: Seq<PortInfo>, owners: Seq<u32>) -> Seq<PortInfo>
    decreases owners.len(),
{
    if owners.len() == 0 {
        rows
    } else {
        give_each_owner(give_first_unowned(rows, owners[0]), owners.drop_first())
    }
}

proof fn lemma_first_unowned(rows: Seq<PortInfo>, i: int)
    requires
        0 <= i <= rows.len(),
    ensures
        first_unowned(rows, i) matches Some(f) ==> i <= f < rows.len() && rows[f].pid is None
            && forall|j: int| i <= j < f ==> (#[trigger] rows[j]).pid is Some,
        first_unowned(rows, i) is None ==> forall|j: int| i <= j < rows.len() ==> (#[trigger] rows[j]).pid is Some,
    decreases rows.len() - i,
{
    if i < rows.len() && rows[i].pid is Some {
        lemma_first_unowned(rows, i + 1);
    }
}

/// Before the first row without an owner, no row lacks one.
proof fn lemma_none_unowned_before(rows: Seq<PortInfo>, i: int)
    requires
        0 <= i <= rows.len(),
        forall|j: int| 0 <= j < i ==> (#[trigger] rows[j]).pid is Some,
    ensures
        unowned_before(rows, i) == 0,
    decreases i,
{
    if i > 0 {
        lemma_none_unowned_before(rows, i - 1);
    }
}

/// Giving row `f` an owner removes it from the count of rows without one
/// that come after it, and leaves the count before it unchanged.
proof fn lemma_unowned_after_giving(rows: Seq<PortInfo>, f: int, pid: u32, i: int)
    requires
        0 <= f < rows.len(),
        rows[f].pid is None,
        0 <= i <= rows.len(),
    ensures
        ({
            let given = rows.update(f, PortInfo { pid: Some(pid), ..rows[f] });
            &&& i <= f ==> unowned_before(given, i) == unowned_before(rows, i)
            &&& i > f ==> unowned_before(given, i) + 1 == unowned_before(rows, i)
        }),
    decreases i,
{
    if i > 0 {
        lemma_unowned_after_giving(rows, f, pid, i - 1);
    }
}

/// Handing out owners socket by socket (each to the first row still without
/// an owner) gives the rows that `assign_owners` states.
pub proof fn law_owners_given_socket_by_socket(rows: Seq<PortInfo>, owners: Seq<u32>)
    ensures
        with_socket_owners(rows, owners) == give_each_owner(rows, owners),
    decreases owners.len(),
{
    if owners.len() == 0 {
        assert(with_socket_owners(rows, owners) =~= rows);
    } else {
        let rest = owners.drop_first();
        let given = give_first_unowned(rows, owners[0]);
        lemma_first_unowned(rows, 0);
        match first_unowned(rows, 0) {
            Some(f) => {
                lemma_none_unowned_before(rows, f);
                assert forall|i: int| 0 <= i < rows.len() implies #[trigger] with_socket_owners(rows, owners)[i]
                    == with_socket_owners(given, rest)[i] by {
                    lemma_unowned_after_giving(rows, f, owners[0], i);
                    if i > f && rows[i].pid is None && unowned_before(rows, i) < owners.len() {
                        assert(rest[unowned_before(given, i) as int] == owners[unowned_before(rows, i) as int]);
                    }
                }
                assert(with_socket_owners(rows, owners) =~= with_socket_owners(given, rest));
            },
            None => {
                assert(with_socket_owners(rows, owners) =~= rows);
                assert(with_socket_owners(given, rest) =~= rows);
            },
        }
        law_owners_given_socket_by_socket(given, rest);
    }
}

/// The order that a stable sort put the rows in, as positions of the input.
proof fn sort_witness<T>(out: Seq<T>, inp: Seq<T>, keys: Seq<KeyVal>, ascending: bool) -> (p: Seq<usize>)
    requires
        is_stable_sort(out, inp, keys, ascending),
    ensures
        is_permutation(p, inp.len()),
        is_sorted_order(p, keys, ascending),
        out.len() == inp.len(),
        forall|i: int| 0 <= i < out.len() ==> out[i] == inp[#[trigger] p[i] as int],
{
    choose|p: Seq<usize>|
        is_permutation(p, inp.len()) && is_sorted_order(p, keys, ascending) && out.len() == inp.len()
            && forall|i: int| 0 <= i < out.len() ==> out[i] == inp[p[i] as int]
}

/// Of two rows that a sort put in a given order, the earlier one's key is not
/// after the later one's (in the sort's direction).
proof fn lemma_sorted_pair<T>(out: Seq<T>, inp: Seq<T>, keys: Seq<KeyVal>, ascending: bool, a: int, b: int) -> (ij: (int, int))
    requires
        is_stable_sort(out, inp, keys, ascending),
        keys.len() == inp.len(),
        0 <= a < b < out.len(),
    ensures
        0 <= ij.0 < inp.len(),
        0 <= ij.1 < inp.len(),
        out[a] == inp[ij.0],
        out[b] == inp[ij.1],
        ascending ==> !key_lt(keys[ij.1], keys[ij.0]),
        !ascending ==> !key_lt(keys[ij.0], keys[ij.1]),
{
    let p = sort_witness(out, inp, keys, ascending);
    let i = p[a] as int;
    let j = p[b] as int;
    assert(comes_before(keys, ascending, i, j));
    lemma_key_order(keys[i], keys[j]);
    crate::order::lemma_lex_irreflexive(match keys[i] { KeyVal::Text(x) => x, KeyVal::Num(_) => Seq::<char>::empty() });
    assert(out[a] == inp[i]);
    assert(out[b] == inp[j]);
    (i, j)
}

/// Sorting the port table orders its rows by the chosen column: port numbers
/// and PIDs as numbers (a row with no PID before every row with one),
/// protocols and states as text; descending reverses each order.
pub proof fn law_port_sort_orders(out: Seq<PortInfo>, inp: Seq<PortInfo>, by: PortSortBy, ascending: bool)
    requires
        is_stable_sort(out, inp, port_keys(inp, by), ascending),
    ensures
        forall|a: int, b: int| 0 <= a < b < out.len() ==> {
            let (x, y) = if ascending { (#[trigger] out[a], #[trigger] out[b]) } else { (out[b], out[a]) };
            &&& by == PortSortBy::Port ==> x.local_port <= y.local_port
            &&& by == PortSortBy::Pid ==> (x.pid matches Some(u) ==> y.pid matches Some(v) && u <= v)
            &&& by == PortSortBy::Protocol ==> !lex_lt(y.protocol@, x.protocol@)
            &&& by == PortSortBy::State ==> !lex_lt(y.state@, x.state@)
        },
{
    let keys = port_keys(inp, by);
    assert forall|a: int, b: int| 0 <= a < b < out.len() implies {
        let (x, y) = if ascending { (#[trigger] out[a], #[trigger] out[b]) } else { (out[b], out[a]) };
        &&& by == PortSortBy::Port ==> x.local_port <= y.local_port
        &&& by == PortSortBy::Pid ==> (x.pid matches Some(u) ==> y.pid matches Some(v) && u <= v)
        &&& by == PortSortBy::Protocol ==> !lex_lt(y.protocol@, x.protocol@)
        &&& by == PortSortBy::State ==> !lex_lt(y.state@, x.state@)
    } by {
        let (i, j) = lemma_sorted_pair(out, inp, keys, ascending, a, b);
        assert(keys[i] == port_key(inp[i], by));
        assert(keys[j] == port_key(inp[j], by));
    }
}

/// Sorting the process table orders its rows by the chosen column: PIDs and
/// memory as numbers, names by their lowercase text, and CPU usages (as
/// non-negative `f32` values, which order as their bit patterns do) by value;
/// descending reverses each order.
pub proof fn law_process_sort_orders(out: Seq<ProcessInfo>, inp: Seq<ProcessInfo>, by: ProcessSortBy, ascending: bool)
    requires
        is_stable_sort(out, inp, process_keys(inp, by), ascending),
    ensures
        forall|a: int, b: int| 0 <= a < b < out.len() ==> {
            let (x, y) = if ascending { (#[trigger] out[a], #[trigger] out[b]) } else { (out[b], out[a]) };
            &&& by == ProcessSortBy::Pid ==> x.pid <= y.pid
            &&& by == ProcessSortBy::Memory ==> x.memory <= y.memory
            &&& by == ProcessSortBy::Name ==> !lex_lt(lowercase(y.name@), lowercase(x.name@))
            &&& (by == ProcessSortBy::Cpu && x.cpu_usage_bits <= 0x7f80_0000 && y.cpu_usage_bits <= 0x7f80_0000)
                ==> x.cpu_usage_bits <= y.cpu_usage_bits
        },
{
    let keys = process_keys(inp, by);
    assert forall|a: int, b: int| 0 <= a < b < out.len() implies {
        let (x, y) = if ascending { (#[trigger] out[a], #[trigger] out[b]) } else { (out[b], out[a]) };
        &&& by == ProcessSortBy::Pid ==> x.pid <= y.pid
        &&& by == ProcessSortBy::Memory ==> x.memory <= y.memory
        &&& by == ProcessSortBy::Name ==> !lex_lt(lowercase(y.name@), lowercase(x.name@))
        &&& (by == ProcessSortBy::Cpu && x.cpu_usage_bits <= 0x7f80_0000 && y.cpu_usage_bits <= 0x7f80_0000)
            ==> x.cpu_usage_bits <= y.cpu_usage_bits
    } by {
        let (i, j) = lemma_sorted_pair(out, inp, keys, ascending, a, b);
        assert(keys[i] == process_key(inp[i], by));
        assert(keys[j] == process_key(inp[j], by));
    }
}

/// In `rocm-smi` output, a card's "GPU use (%)" reading is its utilization:
/// a later "GPU memory use (%)" line never replaces it, and gives the
/// utilization only to a card that has none yet; a "GPU use (%)" line with a
/// number sets the utilization to that number.
pub proof fn law_gpu_use_before_memory_use(st: RocmState, raw: Seq<char>)
    ensures
        ({
            let line = trim_ws(raw);
            let after = rocm_step(st, raw);
            &&& (has_substring(line, "\"GPU memory use (%)\""@) && !has_substring(line, "\"GPU use (%)\""@)
                && !has_substring(line, "\"GPU Usage (%)\""@) && !has_substring(line, "\"Temperature"@))
                ==> {
                &&& st.utilization is Some ==> after.utilization == st.utilization
                &&& st.utilization is None ==> after.utilization == number_field(line)
                &&& after.cards == st.cards && after.name == st.name
            }
            &&& (has_substring(line, "\"GPU use (%)\""@) && number_field(line) is Some)
                ==> after.utilization == number_field(line)
        }),
{
}

/// A non-empty filter shows exactly the process rows whose name or command,
/// lowercased, or whose PID in decimal, contains the lowercased filter.
pub proof fn law_process_filter_matches(m: AppModel)
    requires
        m.filter_input.len() > 0,
    ensures
        ({
            let f = lowercase(m.filter_input);
            let shows = |p: ProcessInfo|
                has_substring(lowercase(p.name@), f) || has_substring(lowercase(p.command@), f)
                    || has_substring(decimal(p.pid as nat), f);
            &&& forall|i: int| 0 <= i < m.processes.len() && shows(#[trigger] m.processes[i])
                ==> visible_processes(m).contains(m.processes[i])
            &&& forall|i: int| 0 <= i < visible_processes(m).len() ==> shows(#[trigger] visible_processes(m)[i])
        }),
{
    let f = lowercase(m.filter_input);
    let pp = |p: ProcessInfo| crate::app::process_matches(p, f);
    m.processes.filter_lemma(pp);
}

/// A non-empty filter shows exactly the port rows whose port number in
/// decimal, local address, or lowercased process name or protocol contains
/// the lowercased filter.
pub proof fn law_port_filter_matches(m: AppModel)
    requires
        m.filter_input.len() > 0,
    ensures
        ({
            let f = lowercase(m.filter_input);
            let shows = |p: PortInfo|
                has_substring(decimal(p.local_port as nat), f) || has_substring(lowercase(p.process_name@), f)
                    || has_substring(p.local_addr@, f) || has_substring(lowercase(p.protocol@), f);
            &&& forall|i: int| 0 <= i < m.ports.len() && shows(#[trigger] m.ports[i])
                ==> visible_ports(m).contains(m.ports[i])
            &&& forall|i: int| 0 <= i < visible_ports(m).len() ==> shows(#[trigger] visible_ports(m)[i])
        }),
{
    let f = lowercase(m.filter_input);
    let pp = |p: PortInfo| crate::app::port_matches(p, f);
    m.ports.filter_lemma(pp);
}

/// The sort column names differ from one another.
proof fn lemma_sort_names_distinct()
    ensures
        "cpu"@ != "mem"@, "cpu"@ != "memory"@, "cpu"@ != "pid"@, "cpu"@ != "name"@, "cpu"@ != "port"@,
        "cpu"@ != "protocol"@, "cpu"@ != "state"@,
        "mem"@ != "memory"@, "mem"@ != "pid"@, "mem"@ != "name"@, "mem"@ != "port"@, "mem"@ != "protocol"@,
        "mem"@ != "state"@,
        "memory"@ != "pid"@, "memory"@ != "name"@, "memory"@ != "port"@, "memory"@ != "protocol"@,
        "memory"@ != "state"@,
        "pid"@ != "name"@, "pid"@ != "port"@, "pid"@ != "protocol"@, "pid"@ != "state"@,
        "name"@ != "port"@, "name"@ != "protocol"@, "name"@ != "state"@,
        "port"@ != "protocol"@, "port"@ != "state"@,
        "protocol"@ != "state"@,
{
    reveal_strlit("cpu");
    reveal_strlit("mem");
    reveal_strlit("memory");
    reveal_strlit("pid");
    reveal_strlit("name");
    reveal_strlit("port");
    reveal_strlit("protocol");
    reveal_strlit("state");
    assert("cpu"@.len() == 3 && "mem"@.len() == 3 && "pid"@.len() == 3);
    assert("name"@.len() == 4 && "port"@.len() == 4);
    assert("state"@.len() == 5 && "memory"@.len() == 6 && "protocol"@.len() == 8);
    assert("cpu"@[0] != "mem"@[0] && "cpu"@[0] != "pid"@[0] && "mem"@[0] != "pid"@[0]);
    assert("name"@[0] != "port"@[0]);
}

/// `:sort <column>` chooses the column named (in any case): cpu, mem or
/// memory, pid and name for the process table, port, protocol and state for
/// the port table, reporting "Sorting by: <column>"; any other name changes
/// no sort and reports it unknown.
pub proof fn law_sort_command(m: AppModel, col: Seq<char>)
    requires
        m.input_mode == InputMode::CommandPalette,
        m.command_input == "sort "@ + col,
        col.len() > 0,
        no_ws_from(col, 0),
    ensures
        ({
            let after = key_step(m, press(KeyCode::Enter)).0;
            let lc = lowercase(col);
            let known = lc == "cpu"@ || lc == "mem"@ || lc == "memory"@ || lc == "pid"@ || lc == "name"@
                || lc == "port"@ || lc == "protocol"@ || lc == "state"@;
            &&& lc == "cpu"@ ==> after.process_sort_by == ProcessSortBy::Cpu
            &&& (lc == "mem"@ || lc == "memory"@) ==> after.process_sort_by == ProcessSortBy::Memory
            &&& lc == "pid"@ ==> after.process_sort_by == ProcessSortBy::Pid
            &&& lc == "name"@ ==> after.process_sort_by == ProcessSortBy::Name
            &&& lc == "port"@ ==> after.port_sort_by == PortSortBy::Port
            &&& lc == "protocol"@ ==> after.port_sort_by == PortSortBy::Protocol
            &&& lc == "state"@ ==> after.port_sort_by == PortSortBy::State
            &&& (lc == "port"@ || lc == "protocol"@ || lc == "state"@) ==> after.process_sort_by == m.process_sort_by
            &&& (lc == "cpu"@ || lc == "mem"@ || lc == "memory"@ || lc == "pid"@ || lc == "name"@)
                ==> after.port_sort_by == m.port_sort_by
            &&& known ==> after.status_message == Some("Sorting by: "@ + col)
            &&& !known ==> after.status_message == Some("Unknown sort column: "@ + col)
                && after.process_sort_by == m.process_sort_by && after.port_sort_by == m.port_sort_by
            &&& after.process_sort_asc == m.process_sort_asc && after.port_sort_asc == m.port_sort_asc
            &&& after.input_mode == InputMode::Normal
            &&& key_step(m, press(KeyCode::Enter)).1 is None
        }),
{
    reveal_strlit("sort ");
    reveal_strlit("sort");
    reveal_strlit("q");
    reveal_strlit("quit");
    reveal_strlit("kill");
    reveal_strlit("kill-port");
    reveal_strlit("rate");
    reveal_strlit("filter");
    reveal_strlit("cpu");
    reveal_strlit("mem");
    reveal_strlit("memory");
    reveal_strlit("pid");
    reveal_strlit("name");
    reveal_strlit("port");
    reveal_strlit("protocol");
    reveal_strlit("state");
    assert("sort "@ =~= "sort"@ + seq![' ']);
    assert(m.command_input =~= "sort"@ + seq![' '] + col);
    lemma_command_words("sort"@, col);
    lemma_sort_names_distinct();
}

/// Moving down in a table (Down or `j`) selects the next row, held at the
/// last visible row, or the first row when none was selected; an empty
/// table keeps its selection. Moving up (Up or `k`) selects the previous
/// row, held at the first. Only the shown table's selection changes.
pub proof fn law_row_moves(m: AppModel, code: KeyCode)
    requires
        m.input_mode == InputMode::Normal,
        !m.show_help,
        m.view == View::ProcessTable || m.view == View::PortTable,
        code == KeyCode::Down || code == KeyCode::Char('j') || code == KeyCode::Up || code == KeyCode::Char('k'),
    ensures
        ({
            let after = key_step(m, press(code)).0;
            let down = code == KeyCode::Down || code == KeyCode::Char('j');
            let (sel, new_sel, n) = if m.view == View::ProcessTable {
                (m.process_selected, after.process_selected, visible_processes(m).len())
            } else {
                (m.port_selected, after.port_selected, visible_ports(m).len())
            };
            &&& down && n > 0 && sel is None ==> new_sel == Some(0usize)
            &&& down && n > 0 && (sel matches Some(i) && i < usize::MAX) ==> new_sel == Some(
                (if sel->0 + 1 < n - 1 { sel->0 + 1 } else { n - 1 }) as usize,
            )
            &&& down && n == 0 ==> new_sel == sel
            &&& !down && sel is None ==> new_sel == Some(0usize)
            &&& !down && (sel matches Some(i)) ==> new_sel == Some((if sel->0 == 0 { 0 } else { sel->0 - 1 }) as usize)
            &&& m.view == View::ProcessTable ==> after == (AppModel { process_selected: new_sel, ..m })
            &&& m.view == View::PortTable ==> after == (AppModel { port_selected: new_sel, ..m })
        }),
{
}

} // verus!
