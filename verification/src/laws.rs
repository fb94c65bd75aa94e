//! General properties of the parser, stated and proved once over the model
//! that the public contracts are written against.

use vstd::prelude::*;

use crate::model::CliOptionView;
use crate::model::OptionValueView;
use crate::model::ParserView;
use crate::model::add_value_state;
use crate::model::dash_prefixed;
use crate::model::enable_state;
use crate::model::enabled_of;
use crate::model::eq_pos;
use crate::model::find_val;
use crate::model::lemma_find_val_from;
use crate::model::lemma_find_val_push;
use crate::model::lemma_find_val_same_names;
use crate::model::long_prefixed;
use crate::model::lookup_long;
use crate::model::lookup_short;
use crate::model::register_model;
use crate::model::scan_token;
use crate::model::scan_tokens;
use crate::model::values_of;

verus! {

/// Whether every value state is still untouched: disabled, with no collected
/// values.
pub open spec fn all_idle(vals: Seq<OptionValueView>) -> bool {
    forall|i: int|
        0 <= i < vals.len() ==> !(#[trigger] vals[i]).is_enabled && vals[i].values.len() == 0
}

/// Registration keeps every value state untouched: however many options are
/// registered, no option is enabled and no option holds values until a scan
/// runs.
pub proof fn lemma_register_keeps_idle(
    m: ParserView,
    short_form: Option<Seq<char>>,
    long_form: Option<Seq<char>>,
    help_text: Seq<char>,
    name: Seq<char>,
)
    requires
        all_idle(m.vals),
    ensures
        all_idle(register_model(m, short_form, long_form, help_text, name).vals),
{
}

/// On an untouched value table every name reads as disabled, with an empty
/// value list.
pub proof fn lemma_idle_queries(vals: Seq<OptionValueView>, name: Seq<char>)
    requires
        all_idle(vals),
    ensures
        !enabled_of(vals, name),
        values_of(vals, name) == Seq::<Seq<char>>::empty(),
{
    lemma_find_val_from(vals, name, 0);
}

/// The tokens with no option prefix, in their original relative order.
pub open spec fn positionals_of(toks: Seq<Seq<char>>) -> Seq<Seq<char>>
    decreases toks.len(),
{
    if toks.len() == 0 {
        Seq::empty()
    } else if !dash_prefixed(toks[0]) {
        seq![toks[0]] + positionals_of(toks.drop_first())
    } else {
        positionals_of(toks.drop_first())
    }
}

/// A token with no option prefix is appended to the positional output
/// verbatim and leaves every value state unchanged.
pub proof fn lemma_positional_token(
    defs: Seq<CliOptionView>,
    vals: Seq<OptionValueView>,
    pos: Seq<Seq<char>>,
    t: Seq<char>,
)
    requires
        !dash_prefixed(t),
    ensures
        scan_token(defs, vals, pos, t) == (vals, pos.push(t)),
{
}

/// A scan's positional output is exactly the tokens with no option prefix, in
/// their original relative order, after the prior positional output:
/// option-prefixed tokens, recognized or not, never appear in it.
pub proof fn lemma_scan_positionals(
    defs: Seq<CliOptionView>,
    vals: Seq<OptionValueView>,
    toks: Seq<Seq<char>>,
    pos: Seq<Seq<char>>,
)
    ensures
        scan_tokens(defs, vals, toks, pos).1 == pos + positionals_of(toks),
    decreases toks.len(),
{
    if toks.len() == 0 {
        assert(pos + positionals_of(toks) =~= pos);
    } else {
        let stepped = scan_token(defs, vals, pos, toks[0]);
        lemma_scan_positionals(defs, stepped.0, toks.drop_first(), stepped.1);
        if !dash_prefixed(toks[0]) {
            assert(stepped.1 == pos.push(toks[0]));
            assert(pos.push(toks[0]) + positionals_of(toks.drop_first()) =~= pos + (seq![toks[0]]
                + positionals_of(toks.drop_first())));
        } else {
            assert(stepped.1 == pos);
        }
    }
}

/// An option-prefixed token whose form is not registered is discarded
/// silently: no value state is touched and nothing reaches the positional
/// output.
pub proof fn lemma_unknown_flag_discarded(
    defs: Seq<CliOptionView>,
    vals: Seq<OptionValueView>,
    pos: Seq<Seq<char>>,
    t: Seq<char>,
)
    requires
        dash_prefixed(t),
        long_prefixed(t) && eq_pos(t) >= 0 ==> lookup_long(defs, t.subrange(0, eq_pos(t))) is None,
        long_prefixed(t) && eq_pos(t) < 0 ==> lookup_long(defs, t) is None,
        !long_prefixed(t) && t.len() > 1 ==> lookup_short(defs, t.subrange(0, 2)) is None,
        !long_prefixed(t) && t.len() <= 1 ==> lookup_short(defs, t) is None,
    ensures
        scan_token(defs, vals, pos, t) == (vals, pos),
{
}

/// Enabling a name keeps every already-enabled name enabled.
proof fn lemma_enable_keeps_enabled(
    vals: Seq<OptionValueView>,
    changed: Seq<char>,
    name: Seq<char>,
)
    requires
        enabled_of(vals, name),
    ensures
        enabled_of(enable_state(vals, changed), name),
{
    lemma_find_val_from(vals, name, 0);
    lemma_find_val_from(vals, changed, 0);
    let i = find_val(vals, changed);
    if i >= 0 {
        let updated = enable_state(vals, changed);
        lemma_find_val_same_names(vals, updated, name, 0);
    } else {
        let entry = OptionValueView { name: changed, is_enabled: true, values: Seq::empty() };
        lemma_find_val_push(vals, entry, name, 0);
    }
}

/// Appending a value for a name keeps every already-enabled name enabled.
proof fn lemma_add_value_keeps_enabled(
    vals: Seq<OptionValueView>,
    changed: Seq<char>,
    value: Seq<char>,
    name: Seq<char>,
)
    requires
        enabled_of(vals, name),
    ensures
        enabled_of(add_value_state(vals, changed, value), name),
{
    lemma_find_val_from(vals, name, 0);
    lemma_find_val_from(vals, changed, 0);
    let i = find_val(vals, changed);
    if i >= 0 {
        let updated = add_value_state(vals, changed, value);
        lemma_find_val_same_names(vals, updated, name, 0);
    } else {
        let entry = OptionValueView { name: changed, is_enabled: true, values: seq![value] };
        lemma_find_val_push(vals, entry, name, 0);
    }
}

/// The enabled flag is monotonic: no single token disables a name.
pub proof fn lemma_scan_token_monotonic(
    defs: Seq<CliOptionView>,
    vals: Seq<OptionValueView>,
    pos: Seq<Seq<char>>,
    t: Seq<char>,
    name: Seq<char>,
)
    requires
        enabled_of(vals, name),
    ensures
        enabled_of(scan_token(defs, vals, pos, t).0, name),
{
    if long_prefixed(t) {
        if eq_pos(t) >= 0 {
            if lookup_long(defs, t.subrange(0, eq_pos(t))) is Some {
                lemma_add_value_keeps_enabled(
                    vals,
                    lookup_long(defs, t.subrange(0, eq_pos(t)))->0,
                    t.subrange(eq_pos(t) + 1, t.len() as int),
                    name,
                );
            }
        } else {
            if lookup_long(defs, t) is Some {
                lemma_enable_keeps_enabled(vals, lookup_long(defs, t)->0, name);
            }
        }
    } else if dash_prefixed(t) {
        if t.len() > 1 {
            if lookup_short(defs, t.subrange(0, 2)) is Some {
                lemma_add_value_keeps_enabled(
                    vals,
                    lookup_short(defs, t.subrange(0, 2))->0,
                    t.subrange(2, t.len() as int),
                    name,
                );
            }
        } else {
            if lookup_short(defs, t) is Some {
                lemma_enable_keeps_enabled(vals, lookup_short(defs, t)->0, name);
            }
        }
    }
}

/// The enabled flag is monotonic across a whole scan: a name enabled before
/// some of the tokens are scanned is still enabled after them.
pub proof fn lemma_scan_monotonic(
    defs: Seq<CliOptionView>,
    vals: Seq<OptionValueView>,
    toks: Seq<Seq<char>>,
    pos: Seq<Seq<char>>,
    name: Seq<char>,
)
    requires
        enabled_of(vals, name),
    ensures
        enabled_of(scan_tokens(defs, vals, toks, pos).0, name),
    decreases toks.len(),
{
    if toks.len() > 0 {
        lemma_scan_token_monotonic(defs, vals, pos, toks[0], name);
        let stepped = scan_token(defs, vals, pos, toks[0]);
        lemma_scan_monotonic(defs, stepped.0, toks.drop_first(), stepped.1, name);
    }
}

/// The queries are functions of the parser's state alone: without an
/// intervening scan, repeated reads under one name return identical results.
pub proof fn lemma_queries_deterministic(
    vals: Seq<OptionValueView>,
    name: Seq<char>,
    enabled_first: bool,
    enabled_second: bool,
    values_first: Seq<Seq<char>>,
    values_second: Seq<Seq<char>>,
)
    requires
        enabled_first == enabled_of(vals, name),
        enabled_second == enabled_of(vals, name),
        values_first == values_of(vals, name),
        values_second == values_of(vals, name),
    ensures
        enabled_first == enabled_second,
        values_first == values_second,
{
}

} // verus!
