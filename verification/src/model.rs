//! Mathematical model of the parser: ghost views of the registration and
//! value tables, the token classification rules, and the transition functions
//! that registration and scanning are specified against.

use vstd::prelude::*;

verus! {

/// Model of one registered option definition.
#[verifier::ext_equal]
pub ghost struct CliOptionView {
    pub name: Seq<char>,
    pub short_form: Option<Seq<char>>,
    pub long_form: Option<Seq<char>>,
    pub help_text: Seq<char>,
}

/// Model of the value state tracked for one option name: whether the option
/// was recognized during scanning, and the values collected for it, in order.
#[verifier::ext_equal]
pub ghost struct OptionValueView {
    pub name: Seq<char>,
    pub is_enabled: bool,
    pub values: Seq<Seq<char>>,
}

/// Model of the whole parser: the registered definitions in registration
/// order, the per-name value states, and the two help-message text blocks.
#[verifier::ext_equal]
pub ghost struct ParserView {
    pub defs: Seq<CliOptionView>,
    pub vals: Seq<OptionValueView>,
    pub header: Seq<char>,
    pub footer: Seq<char>,
}

/// Why a registration was rejected.
#[derive(Clone, Copy, Debug, PartialEq, Eq, Structural)]
pub enum RegisterError {
    /// The name is already registered.
    DuplicateName,
    /// Neither a short form nor a long form was supplied.
    MissingForms,
    /// The supplied short form is already bound to a name.
    DuplicateShortForm,
    /// The supplied long form is already bound to a name.
    DuplicateLongForm,
}

// ---------------------------------------------------------------------------
// Searching the tables
// ---------------------------------------------------------------------------

/// Index of the first value state at or after position `k` whose name is
/// `name`, or -1 if there is none.
pub open spec fn find_val_from(vals: Seq<OptionValueView>, name: Seq<char>, k: int) -> int
    decreases vals.len() - k,
{
    if k < 0 || k >= vals.len() {
        -1
    } else if vals[k].name == name {
        k
    } else {
        find_val_from(vals, name, k + 1)
    }
}

/// Index of the first value state for `name`, or -1.
pub open spec fn find_val(vals: Seq<OptionValueView>, name: Seq<char>) -> int {
    find_val_from(vals, name, 0)
}

/// Index of the first definition at or after position `k` whose short form is
/// `form`, or -1 if there is none.
pub open spec fn find_short_from(defs: Seq<CliOptionView>, form: Seq<char>, k: int) -> int
    decreases defs.len() - k,
{
    if k < 0 || k >= defs.len() {
        -1
    } else if defs[k].short_form == Some(form) {
        k
    } else {
        find_short_from(defs, form, k + 1)
    }
}

/// Index of the first definition at or after position `k` whose long form is
/// `form`, or -1 if there is none.
pub open spec fn find_long_from(defs: Seq<CliOptionView>, form: Seq<char>, k: int) -> int
    decreases defs.len() - k,
{
    if k < 0 || k >= defs.len() {
        -1
    } else if defs[k].long_form == Some(form) {
        k
    } else {
        find_long_from(defs, form, k + 1)
    }
}

/// The name bound to short form `form`, if any.
pub open spec fn lookup_short(defs: Seq<CliOptionView>, form: Seq<char>) -> Option<Seq<char>> {
    let i = find_short_from(defs, form, 0);
    if i >= 0 {
        Some(defs[i].name)
    } else {
        None
    }
}

/// The name bound to long form `form`, if any.
pub open spec fn lookup_long(defs: Seq<CliOptionView>, form: Seq<char>) -> Option<Seq<char>> {
    let i = find_long_from(defs, form, 0);
    if i >= 0 {
        Some(defs[i].name)
    } else {
        None
    }
}

/// Whether some definition carries name `name`.
pub open spec fn name_registered(defs: Seq<CliOptionView>, name: Seq<char>) -> bool {
    exists|i: int| 0 <= i < defs.len() && defs[i].name == name
}

// ---------------------------------------------------------------------------
// Query results
// ---------------------------------------------------------------------------

/// Whether the option named `name` was recognized at least once: false when no
/// value state exists for the name.
pub open spec fn enabled_of(vals: Seq<OptionValueView>, name: Seq<char>) -> bool {
    let i = find_val(vals, name);
    i >= 0 && vals[i].is_enabled
}

/// The values collected for `name`, in scan order; the empty sequence when the
/// name is not enabled.
pub open spec fn values_of(vals: Seq<OptionValueView>, name: Seq<char>) -> Seq<Seq<char>> {
    let i = find_val(vals, name);
    if i >= 0 && vals[i].is_enabled {
        vals[i].values
    } else {
        Seq::empty()
    }
}

// ---------------------------------------------------------------------------
// Value-state transitions
// ---------------------------------------------------------------------------

/// Mark `name` enabled, creating a fresh state for it if none exists.
pub open spec fn enable_state(vals: Seq<OptionValueView>, name: Seq<char>) -> Seq<OptionValueView> {
    let i = find_val(vals, name);
    if i >= 0 {
        vals.update(
            i,
            OptionValueView { name: vals[i].name, is_enabled: true, values: vals[i].values },
        )
    } else {
        vals.push(OptionValueView { name, is_enabled: true, values: Seq::empty() })
    }
}

/// Append `value` to the values of `name` and mark it enabled, creating a
/// fresh state for it if none exists.
pub open spec fn add_value_state(
    vals: Seq<OptionValueView>,
    name: Seq<char>,
    value: Seq<char>,
) -> Seq<OptionValueView> {
    let i = find_val(vals, name);
    if i >= 0 {
        vals.update(
            i,
            OptionValueView {
                name: vals[i].name,
                is_enabled: true,
                values: vals[i].values.push(value),
            },
        )
    } else {
        vals.push(OptionValueView { name, is_enabled: true, values: seq![value] })
    }
}

// ---------------------------------------------------------------------------
// Token classification and scanning
// ---------------------------------------------------------------------------

/// Whether the token begins with the one-character option prefix.
pub open spec fn dash_prefixed(t: Seq<char>) -> bool {
    t.len() >= 1 && t[0] == '-'
}

/// Whether the token begins with the two-character long-option prefix.
pub open spec fn long_prefixed(t: Seq<char>) -> bool {
    t.len() >= 2 && t[0] == '-' && t[1] == '-'
}

/// Position of the first separator character `=` at or after position `k`,
/// or -1 if there is none.
pub open spec fn eq_pos_from(t: Seq<char>, k: int) -> int
    decreases t.len() - k,
{
    if k < 0 || k >= t.len() {
        -1
    } else if t[k] == '=' {
        k
    } else {
        eq_pos_from(t, k + 1)
    }
}

/// Position of the first separator character `=`, or -1.
pub open spec fn eq_pos(t: Seq<char>) -> int {
    eq_pos_from(t, 0)
}

/// One scan step: how a single token transforms the value states and the
/// positional output.
///
/// A long-prefixed token with a separator is split at the first separator;
/// everything to the right of it, further separators included, is the value.
/// A dash-prefixed token of more than one character is split after its second
/// character, and the remainder, possibly empty, is the value. A token whose
/// form is not registered is discarded. A token with no option prefix is
/// appended to the positional output.
pub open spec fn scan_token(
    defs: Seq<CliOptionView>,
    vals: Seq<OptionValueView>,
    pos: Seq<Seq<char>>,
    t: Seq<char>,
) -> (Seq<OptionValueView>, Seq<Seq<char>>) {
    if long_prefixed(t) {
        if eq_pos(t) >= 0 {
            let option_text = t.subrange(0, eq_pos(t));
            let value_text = t.subrange(eq_pos(t) + 1, t.len() as int);
            match lookup_long(defs, option_text) {
                Some(name) => (add_value_state(vals, name, value_text), pos),
                None => (vals, pos),
            }
        } else {
            match lookup_long(defs, t) {
                Some(name) => (enable_state(vals, name), pos),
                None => (vals, pos),
            }
        }
    } else if dash_prefixed(t) {
        if t.len() > 1 {
            let option_text = t.subrange(0, 2);
            let value_text = t.subrange(2, t.len() as int);
            match lookup_short(defs, option_text) {
                Some(name) => (add_value_state(vals, name, value_text), pos),
                None => (vals, pos),
            }
        } else {
            match lookup_short(defs, t) {
                Some(name) => (enable_state(vals, name), pos),
                None => (vals, pos),
            }
        }
    } else {
        (vals, pos.push(t))
    }
}

/// Scanning a whole token sequence: each token in order transforms the value
/// states and the positional output by one `scan_token` step.
pub open spec fn scan_tokens(
    defs: Seq<CliOptionView>,
    vals: Seq<OptionValueView>,
    toks: Seq<Seq<char>>,
    pos: Seq<Seq<char>>,
) -> (Seq<OptionValueView>, Seq<Seq<char>>)
    decreases toks.len(),
{
    if toks.len() == 0 {
        (vals, pos)
    } else {
        let stepped = scan_token(defs, vals, pos, toks[0]);
        scan_tokens(defs, stepped.0, toks.drop_first(), stepped.1)
    }
}

// ---------------------------------------------------------------------------
// Registration
// ---------------------------------------------------------------------------

/// The error a registration is rejected with, or `None` when it is accepted:
/// a duplicate name is reported first, then two absent forms, then a short
/// form collision, then a long form collision.
pub open spec fn register_outcome(
    defs: Seq<CliOptionView>,
    short_form: Option<Seq<char>>,
    long_form: Option<Seq<char>>,
    name: Seq<char>,
) -> Option<RegisterError> {
    if name_registered(defs, name) {
        Some(RegisterError::DuplicateName)
    } else if short_form is None && long_form is None {
        Some(RegisterError::MissingForms)
    } else if short_form is Some && find_short_from(defs, short_form->0, 0) >= 0 {
        Some(RegisterError::DuplicateShortForm)
    } else if long_form is Some && find_long_from(defs, long_form->0, 0) >= 0 {
        Some(RegisterError::DuplicateLongForm)
    } else {
        None
    }
}

/// A successful registration: the definition is recorded after the existing
/// ones and a disabled, empty value state is created for the name.
pub open spec fn register_model(
    m: ParserView,
    short_form: Option<Seq<char>>,
    long_form: Option<Seq<char>>,
    help_text: Seq<char>,
    name: Seq<char>,
) -> ParserView {
    ParserView {
        defs: m.defs.push(
            CliOptionView { name, short_form, long_form, help_text },
        ),
        vals: m.vals.push(OptionValueView { name, is_enabled: false, values: Seq::empty() }),
        header: m.header,
        footer: m.footer,
    }
}

// ---------------------------------------------------------------------------
// Well-formedness
// ---------------------------------------------------------------------------

/// The registration invariants: names are unique, present short forms are
/// unique, present long forms are unique, and every definition carries at
/// least one form.
pub open spec fn wf_defs(defs: Seq<CliOptionView>) -> bool {
    &&& forall|i: int, j: int|
        #![trigger defs[i], defs[j]]
        0 <= i < j < defs.len() ==> defs[i].name != defs[j].name
    &&& forall|i: int, j: int|
        #![trigger defs[i], defs[j]]
        0 <= i < j < defs.len() ==> !(defs[i].short_form is Some && defs[i].short_form
            == defs[j].short_form)
    &&& forall|i: int, j: int|
        #![trigger defs[i], defs[j]]
        0 <= i < j < defs.len() ==> !(defs[i].long_form is Some && defs[i].long_form
            == defs[j].long_form)
    &&& forall|i: int|
        0 <= i < defs.len() ==> ((#[trigger] defs[i]).short_form is Some || defs[i].long_form
            is Some)
}

/// The value-table invariants: names are unique and every tracked name is a
/// registered one.
pub open spec fn wf_vals(defs: Seq<CliOptionView>, vals: Seq<OptionValueView>) -> bool {
    &&& forall|i: int, j: int|
        #![trigger vals[i], vals[j]]
        0 <= i < j < vals.len() ==> vals[i].name != vals[j].name
    &&& forall|i: int| 0 <= i < vals.len() ==> name_registered(defs, (#[trigger] vals[i]).name)
}

/// Well-formedness of the whole model.
pub open spec fn wf_model(m: ParserView) -> bool {
    wf_defs(m.defs) && wf_vals(m.defs, m.vals)
}

// ---------------------------------------------------------------------------
// Help rendering
// ---------------------------------------------------------------------------

/// How one character of help text is rendered: a line break is followed by a
/// tab-prefixed continuation indent, every other character stands as itself.
pub open spec fn indent_unit(c: char) -> Seq<char> {
    if c == '\n' {
        seq!['\n', '\t', '\t', '\t']
    } else {
        seq![c]
    }
}

/// Help text with every embedded line break re-indented.
pub open spec fn indent_help(s: Seq<char>) -> Seq<char>
    decreases s.len(),
{
    if s.len() == 0 {
        Seq::empty()
    } else {
        indent_help(s.drop_last()) + indent_unit(s.last())
    }
}

/// One form column: the form followed by four spaces, or five spaces when the
/// form is absent.
pub open spec fn form_column(form: Option<Seq<char>>) -> Seq<char> {
    match form {
        Some(f) => f + "    "@,
        None => "     "@,
    }
}

/// One option's help line: the short-form column, the long-form column, five
/// spaces, the re-indented help text, and a line break.
pub open spec fn help_line(d: CliOptionView) -> Seq<char> {
    form_column(d.short_form) + form_column(d.long_form) + "     "@ + indent_help(d.help_text)
        + "\n"@
}

/// The help lines of all definitions, in registration order.
pub open spec fn help_lines(defs: Seq<CliOptionView>) -> Seq<char>
    decreases defs.len(),
{
    if defs.len() == 0 {
        Seq::empty()
    } else {
        help_lines(defs.drop_last()) + help_line(defs.last())
    }
}

/// The whole help message: header, blank line, one line per registered
/// option, blank line, footer, trailing blank line.
pub open spec fn help_model(m: ParserView) -> Seq<char> {
    m.header + "\n\n"@ + help_lines(m.defs) + "\n"@ + m.footer + "\n\n"@
}

// ---------------------------------------------------------------------------
// Facts about the searches
// ---------------------------------------------------------------------------

/// What `find_val_from` finds: the first matching index at or after `k`, with
/// no match before it, or -1 when no index at or after `k` matches.
pub proof fn lemma_find_val_from(vals: Seq<OptionValueView>, name: Seq<char>, k: int)
    requires
        0 <= k,
    ensures
        ({
            let r = find_val_from(vals, name, k);
            &&& r == -1 || (k <= r < vals.len() && vals[r].name == name)
            &&& r == -1 ==> forall|j: int| k <= j < vals.len() ==> (#[trigger] vals[j]).name != name
            &&& r >= 0 ==> forall|j: int| k <= j < r ==> (#[trigger] vals[j]).name != name
        }),
    decreases vals.len() - k,
{
    if k < vals.len() && vals[k].name != name {
        lemma_find_val_from(vals, name, k + 1);
    }
}

/// What `find_short_from` finds: the first definition at or after `k` whose
/// short form is `form`, with no match before it, or -1 when there is none.
pub proof fn lemma_find_short_from(defs: Seq<CliOptionView>, form: Seq<char>, k: int)
    requires
        0 <= k,
    ensures
        ({
            let r = find_short_from(defs, form, k);
            &&& r == -1 || (k <= r < defs.len() && defs[r].short_form == Some(form))
            &&& r == -1 ==> forall|j: int|
                k <= j < defs.len() ==> (#[trigger] defs[j]).short_form != Some(form)
            &&& r >= 0 ==> forall|j: int| k <= j < r ==> (#[trigger] defs[j]).short_form != Some(form)
        }),
    decreases defs.len() - k,
{
    if k < defs.len() && defs[k].short_form != Some(form) {
        lemma_find_short_from(defs, form, k + 1);
    }
}

/// What `find_long_from` finds: the first definition at or after `k` whose
/// long form is `form`, with no match before it, or -1 when there is none.
pub proof fn lemma_find_long_from(defs: Seq<CliOptionView>, form: Seq<char>, k: int)
    requires
        0 <= k,
    ensures
        ({
            let r = find_long_from(defs, form, k);
            &&& r == -1 || (k <= r < defs.len() && defs[r].long_form == Some(form))
            &&& r == -1 ==> forall|j: int|
                k <= j < defs.len() ==> (#[trigger] defs[j]).long_form != Some(form)
            &&& r >= 0 ==> forall|j: int| k <= j < r ==> (#[trigger] defs[j]).long_form != Some(form)
        }),
    decreases defs.len() - k,
{
    if k < defs.len() && defs[k].long_form != Some(form) {
        lemma_find_long_from(defs, form, k + 1);
    }
}

/// A search for a name looks only at the names: two tables with the same
/// names in the same places are searched alike.
pub proof fn lemma_find_val_same_names(
    v1: Seq<OptionValueView>,
    v2: Seq<OptionValueView>,
    name: Seq<char>,
    k: int,
)
    requires
        v1.len() == v2.len(),
        forall|i: int| 0 <= i < v1.len() ==> (#[trigger] v1[i]).name == v2[i].name,
    ensures
        find_val_from(v1, name, k) == find_val_from(v2, name, k),
    decreases v1.len() - k,
{
    if 0 <= k < v1.len() {
        lemma_find_val_same_names(v1, v2, name, k + 1);
    }
}

/// A state appended at the back does not move a name that was already found.
pub proof fn lemma_find_val_push(
    vals: Seq<OptionValueView>,
    entry: OptionValueView,
    name: Seq<char>,
    k: int,
)
    ensures
        find_val_from(vals, name, k) >= 0 ==> find_val_from(vals.push(entry), name, k)
            == find_val_from(vals, name, k),
    decreases vals.len() - k,
{
    if 0 <= k < vals.len() {
        lemma_find_val_push(vals, entry, name, k + 1);
    }
}

/// A name handed back by a form lookup is a registered name.
pub proof fn lemma_lookup_name_registered(defs: Seq<CliOptionView>, form: Seq<char>)
    ensures
        lookup_short(defs, form) is Some ==> name_registered(defs, lookup_short(defs, form)->0),
        lookup_long(defs, form) is Some ==> name_registered(defs, lookup_long(defs, form)->0),
{
    lemma_find_short_from(defs, form, 0);
    lemma_find_long_from(defs, form, 0);
}

/// An accepted registration keeps the whole model well formed.
pub proof fn lemma_register_preserves_wf(
    m: ParserView,
    short_form: Option<Seq<char>>,
    long_form: Option<Seq<char>>,
    help_text: Seq<char>,
    name: Seq<char>,
)
    requires
        wf_model(m),
        register_outcome(m.defs, short_form, long_form, name) is None,
    ensures
        wf_model(register_model(m, short_form, long_form, help_text, name)),
{
    let m2 = register_model(m, short_form, long_form, help_text, name);
    if short_form is Some {
        lemma_find_short_from(m.defs, short_form->0, 0);
    }
    if long_form is Some {
        lemma_find_long_from(m.defs, long_form->0, 0);
    }
    assert forall|i: int| 0 <= i < m.vals.len() implies (#[trigger] m2.vals[i]).name != name by {
        assert(name_registered(m.defs, m.vals[i].name));
    }
    assert forall|i: int| 0 <= i < m2.vals.len() implies name_registered(
        m2.defs,
        (#[trigger] m2.vals[i]).name,
    ) by {
        if i < m.vals.len() {
            let w = choose|j: int| 0 <= j < m.defs.len() && m.defs[j].name == m.vals[i].name;
            assert(m2.defs[w].name == m2.vals[i].name);
        } else {
            assert(m2.defs[m.defs.len() as int].name == name);
        }
    }
}

// ---------------------------------------------------------------------------
// Preservation of the invariants by scanning
// ---------------------------------------------------------------------------

/// Enabling a registered name keeps the value-table invariants.
pub proof fn lemma_enable_preserves_wf(
    defs: Seq<CliOptionView>,
    vals: Seq<OptionValueView>,
    name: Seq<char>,
)
    requires
        wf_vals(defs, vals),
        name_registered(defs, name),
    ensures
        wf_vals(defs, enable_state(vals, name)),
{
    lemma_find_val_from(vals, name, 0);
}

/// Appending a value for a registered name keeps the value-table invariants.
pub proof fn lemma_add_value_preserves_wf(
    defs: Seq<CliOptionView>,
    vals: Seq<OptionValueView>,
    name: Seq<char>,
    value: Seq<char>,
)
    requires
        wf_vals(defs, vals),
        name_registered(defs, name),
    ensures
        wf_vals(defs, add_value_state(vals, name, value)),
{
    lemma_find_val_from(vals, name, 0);
}

/// One scan step keeps the value-table invariants.
pub proof fn lemma_scan_token_preserves_wf(
    defs: Seq<CliOptionView>,
    vals: Seq<OptionValueView>,
    pos: Seq<Seq<char>>,
    t: Seq<char>,
)
    requires
        wf_vals(defs, vals),
    ensures
        wf_vals(defs, scan_token(defs, vals, pos, t).0),
{
    if long_prefixed(t) {
        if eq_pos(t) >= 0 {
            let option_text = t.subrange(0, eq_pos(t));
            lemma_lookup_name_registered(defs, option_text);
            if lookup_long(defs, option_text) is Some {
                lemma_add_value_preserves_wf(
                    defs,
                    vals,
                    lookup_long(defs, option_text)->0,
                    t.subrange(eq_pos(t) + 1, t.len() as int),
                );
            }
        } else {
            lemma_lookup_name_registered(defs, t);
            if lookup_long(defs, t) is Some {
                lemma_enable_preserves_wf(defs, vals, lookup_long(defs, t)->0);
            }
        }
    } else if dash_prefixed(t) {
        if t.len() > 1 {
            let option_text = t.subrange(0, 2);
            lemma_lookup_name_registered(defs, option_text);
            if lookup_short(defs, option_text) is Some {
                lemma_add_value_preserves_wf(
                    defs,
                    vals,
                    lookup_short(defs, option_text)->0,
                    t.subrange(2, t.len() as int),
                );
            }
        } else {
            lemma_lookup_name_registered(defs, t);
            if lookup_short(defs, t) is Some {
                lemma_enable_preserves_wf(defs, vals, lookup_short(defs, t)->0);
            }
        }
    }
}

/// Scanning a whole token sequence keeps the value-table invariants.
pub proof fn lemma_scan_tokens_preserves_wf(
    defs: Seq<CliOptionView>,
    vals: Seq<OptionValueView>,
    toks: Seq<Seq<char>>,
    pos: Seq<Seq<char>>,
)
    requires
        wf_vals(defs, vals),
    ensures
        wf_vals(defs, scan_tokens(defs, vals, toks, pos).0),
    decreases toks.len(),
{
    if toks.len() > 0 {
        lemma_scan_token_preserves_wf(defs, vals, pos, toks[0]);
        let stepped = scan_token(defs, vals, pos, toks[0]);
        lemma_scan_tokens_preserves_wf(defs, stepped.0, toks.drop_first(), stepped.1);
    }
}

} // verus!
