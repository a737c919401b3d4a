use vstd::prelude::*;
use super::{extract_number, line_has, number_field, opt_text, trim_ws, GpuReading, GpuReadingView};
use crate::text::{chars_of, decimal, has_substring, lines, prefixed_number, split_lines, text, trim_range};

verus! {

/// Reads AMD GPUs through `rocm-smi --json`.
pub struct AmdBackend;

/// What has been read so far: the finished cards, and the name and readings
/// of the card being read.
pub struct RocmState {
    pub cards: Seq<GpuReadingView>,
    pub name: Seq<char>,
    pub utilization: Option<Seq<char>>,
    pub temperature: Option<Seq<char>>,
    pub power_usage: Option<Seq<char>>,
}

pub open spec fn rocm_start() -> RocmState {
    RocmState { cards: seq![], name: "AMD GPU"@, utilization: None, temperature: None, power_usage: None }
}

/// The card being read, as a reading.
pub open spec fn current_card(st: RocmState) -> GpuReadingView {
    GpuReadingView {
        name: st.name,
        utilization: st.utilization,
        temperature: st.temperature,
        power_usage: st.power_usage,
    }
}

/// The finished cards, with the card being read if it has a utilization or
/// a temperature.
pub open spec fn cards_with_current(st: RocmState) -> Seq<GpuReadingView> {
    if st.utilization is Some || st.temperature is Some {
        st.cards.push(current_card(st))
    } else {
        st.cards
    }
}

/// One line of `rocm-smi --json` output (trimmed first): a utilization, an
/// edge temperature, a memory use that stands in for a missing utilization,
/// a package power, or the start of a new card, which closes the current one
/// and names the next "AMD GPU <number of cards kept>".
pub open spec fn rocm_step(st: RocmState, raw: Seq<char>) -> RocmState {
    let line = trim_ws(raw);
    if has_substring(line, "\"GPU use (%)\""@) || has_substring(line, "\"GPU Usage (%)\""@) {
        match number_field(line) {
            Some(v) => RocmState { utilization: Some(v), ..st },
            None => st,
        }
    } else if has_substring(line, "\"Temperature"@) && has_substring(line, "edge"@) {
        match number_field(line) {
            Some(v) => RocmState { temperature: Some(v), ..st },
            None => st,
        }
    } else if has_substring(line, "\"GPU memory use (%)\""@) {
        match number_field(line) {
            Some(v) => RocmState {
                utilization: if st.utilization is Some { st.utilization } else { Some(v) },
                ..st
            },
            None => st,
        }
    } else if has_substring(line, "\"Average Graphics Package Power\""@) || has_substring(
        line,
        "\"Current Socket Graphics Package Power\""@,
    ) {
        match number_field(line) {
            Some(v) => RocmState { power_usage: Some(v), ..st },
            None => st,
        }
    } else if has_substring(line, "\"card"@) && has_substring(line, "\":"@) {
        let cards = cards_with_current(st);
        RocmState {
            cards,
            name: "AMD GPU "@ + decimal(cards.len()),
            utilization: None,
            temperature: None,
            power_usage: None,
        }
    } else {
        st
    }
}

/// The state after reading the lines `ls` in order.
pub open spec fn rocm_read(ls: Seq<Seq<char>>) -> RocmState
    decreases ls.len(),
{
    if ls.len() == 0 {
        rocm_start()
    } else {
        rocm_step(rocm_read(ls.drop_last()), ls.last())
    }
}

/// The GPUs of a `rocm-smi --json` listing.
pub open spec fn rocm_cards(output: Seq<char>) -> Seq<GpuReadingView> {
    cards_with_current(rocm_read(lines(output)))
}

fn reading_of(name: &String, utilization: &Option<String>, temperature: &Option<String>, power_usage: &Option<String>) -> (r: GpuReading)
    ensures
        r.name == *name,
        r.utilization == *utilization,
        r.temperature == *temperature,
        r.power_usage == *power_usage,
{
    GpuReading {
        name: name.clone(),
        utilization: match utilization {
            Some(s) => Some(s.clone()),
            None => None,
        },
        temperature: match temperature {
            Some(s) => Some(s.clone()),
            None => None,
        },
        power_usage: match power_usage {
            Some(s) => Some(s.clone()),
            None => None,
        },
    }
}

impl AmdBackend {
    /// The GPUs of a `rocm-smi --json` listing (see `rocm_cards`).
    pub fn parse_output(&self, output: &str) -> (cards: Vec<GpuReading>)
        ensures
            cards@.len() == rocm_cards(output@).len(),
            forall|i: int| 0 <= i < cards@.len() ==> #[trigger] cards@[i]@ == rocm_cards(output@)[i],
    {
        let ls = split_lines(&chars_of(output));
        let ghost all = lines(output@);
        let mut cards: Vec<GpuReading> = Vec::new();
        let mut name = text("AMD GPU");
        let mut utilization: Option<String> = None;
        let mut temperature: Option<String> = None;
        let mut power_usage: Option<String> = None;
        let none: Vec<char> = Vec::new();
        let mut i: usize = 0;
        while i < ls.len()
            invariant
                i <= ls.len(),
                none@ == Seq::<char>::empty(),
                ls@.len() == all.len(),
                forall|k: int| 0 <= k < ls@.len() ==> #[trigger] ls@[k]@ == all[k],
                ({
                    let st = rocm_read(all.take(i as int));
                    &&& cards@.len() == st.cards.len()
                    &&& forall|k: int| 0 <= k < cards@.len() ==> #[trigger] cards@[k]@ == st.cards[k]
                    &&& name@ == st.name
                    &&& opt_text(utilization) == st.utilization
                    &&& opt_text(temperature) == st.temperature
                    &&& opt_text(power_usage) == st.power_usage
                }),
            decreases ls.len() - i,
        {
            proof {
                assert(all.take(i + 1).drop_last() =~= all.take(i as int));
                assert(all.take(i + 1).last() == all[i as int]);
                assert(ls@[i as int]@.subrange(0, ls@[i as int]@.len() as int) =~= ls@[i as int]@);
            }
            let ghost st = rocm_read(all.take(i as int));
            let n = ls[i].len();
            let line = trim_range(&ls[i], 0, n, true, &none);
            if line_has(&line, "\"GPU use (%)\"") || line_has(&line, "\"GPU Usage (%)\"") {
                match extract_number(&line) {
                    Some(v) => utilization = Some(v),
                    None => {},
                }
            } else if line_has(&line, "\"Temperature") && line_has(&line, "edge") {
                match extract_number(&line) {
                    Some(v) => temperature = Some(v),
                    None => {},
                }
            } else if line_has(&line, "\"GPU memory use (%)\"") {
                match extract_number(&line) {
                    Some(v) => {
                        if utilization.is_none() {
                            utilization = Some(v);
                        }
                    },
                    None => {},
                }
            } else if line_has(&line, "\"Average Graphics Package Power\"") || line_has(
                &line,
                "\"Current Socket Graphics Package Power\"",
            ) {
                match extract_number(&line) {
                    Some(v) => power_usage = Some(v),
                    None => {},
                }
            } else if line_has(&line, "\"card") && line_has(&line, "\":") {
                if utilization.is_some() || temperature.is_some() {
                    let card = reading_of(&name, &utilization, &temperature, &power_usage);
                    cards.push(card);
                    proof {
                        assert(cards@.last()@ == current_card(st));
                    }
                }
                name = prefixed_number("AMD GPU ", cards.len() as u64);
                utilization = None;
                temperature = None;
                power_usage = None;
            }
            proof {
                let st2 = rocm_read(all.take(i + 1));
                assert(st2 == rocm_step(st, all[i as int]));
                assert(cards@.len() == st2.cards.len());
                assert forall|k: int| 0 <= k < cards@.len() implies #[trigger] cards@[k]@ == st2.cards[k] by {}
            }
            i = i + 1;
        }
        proof {
            assert(all.take(i as int) =~= all);
        }
        if utilization.is_some() || temperature.is_some() {
            let card = reading_of(&name, &utilization, &temperature, &power_usage);
            cards.push(card);
        }
        cards
    }
}

} // verus!
