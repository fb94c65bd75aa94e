//! The executable parser: registration of option definitions, scanning of a
//! token sequence, lookup accessors, and help rendering, each specified
//! against the model in `crate::model`.

use vstd::prelude::*;

use crate::model::CliOptionView;
use crate::model::OptionValueView;
use crate::model::ParserView;
use crate::model::RegisterError;
use crate::model::add_value_state;
use crate::model::dash_prefixed;
use crate::model::enable_state;
use crate::model::enabled_of;
use crate::model::eq_pos;
use crate::model::eq_pos_from;
use crate::model::find_long_from;
use crate::model::find_short_from;
use crate::model::find_val;
use crate::model::form_column;
use crate::model::help_line;
use crate::model::help_lines;
use crate::model::help_model;
use crate::model::indent_help;
use crate::model::indent_unit;
use crate::model::lemma_register_preserves_wf;
use crate::model::lemma_scan_tokens_preserves_wf;
use crate::model::long_prefixed;
use crate::model::lookup_long;
use crate::model::lookup_short;
use crate::model::name_registered;
use crate::model::register_model;
use crate::model::register_outcome;
use crate::model::scan_token;
use crate::model::scan_tokens;
use crate::model::values_of;
use crate::model::wf_model;
use vstd::string::StrSliceExecFns;
use vstd::string::StringExecFns;

verus! {

/// One registered option: its caller-facing name, its optional short and long
/// forms, and its help text.
pub struct CliOption {
    pub name: String,
    pub short_form: Option<String>,
    pub long_form: Option<String>,
    pub help_text: String,
}

impl View for CliOption {
    type V = CliOptionView;

    open spec fn view(&self) -> CliOptionView {
        CliOptionView {
            name: self.name@,
            short_form: self.short_form.deep_view(),
            long_form: self.long_form.deep_view(),
            help_text: self.help_text@,
        }
    }
}

impl DeepView for CliOption {
    type V = CliOptionView;

    open spec fn deep_view(&self) -> CliOptionView {
        self@
    }
}

/// The value state tracked for one option name: whether the option was
/// recognized during scanning, and the values collected for it, in order.
pub struct OptionValue {
    pub name: String,
    pub is_enabled: bool,
    pub values: Vec<String>,
}

impl View for OptionValue {
    type V = OptionValueView;

    open spec fn view(&self) -> OptionValueView {
        OptionValueView {
            name: self.name@,
            is_enabled: self.is_enabled,
            values: self.values.deep_view(),
        }
    }
}

impl DeepView for OptionValue {
    type V = OptionValueView;

    open spec fn deep_view(&self) -> OptionValueView {
        self@
    }
}

impl OptionValue {
    /// Whether the option was recognized at least once.
    pub fn is_enabled(&self) -> (r: bool)
        ensures
            r == self@.is_enabled,
    {
        self.is_enabled
    }

    /// The values collected for the option, in scan order.
    pub fn values(&self) -> (r: &Vec<String>)
        ensures
            r.deep_view() == self@.values,
    {
        &self.values
    }
}

/// Position of the first separator character `=` in `s`, or `None`.
fn find_eq_pos(s: &String) -> (r: Option<usize>)
    ensures
        match r {
            Some(p) => p < s@.len() && eq_pos(s@) == p as int,
            None => eq_pos(s@) == -1,
        },
{
    let n = s.as_str().unicode_len();
    let mut i: usize = 0;
    while i < n
        invariant
            i <= n,
            n == s@.len(),
            eq_pos_from(s@, 0) == eq_pos_from(s@, i as int),
        decreases n - i,
    {
        if s.as_str().get_char(i) == '=' {
            assert(eq_pos_from(s@, i as int) == i as int);
            return Some(i);
        }
        assert(s@[i as int] != '=');
        i += 1;
    }
    None
}

/// A parser for command-line options and arguments.
///
/// Options are registered with a short and/or a long form; a scan over a token
/// sequence collects option values and returns the positional arguments; the
/// collected state is read back by name.
pub struct CliOptionParser {
    options: Vec<CliOption>,
    option_values: Vec<OptionValue>,
    empty_option_list: Vec<String>,
    header: String,
    footer: String,
}

impl View for CliOptionParser {
    type V = ParserView;

    closed spec fn view(&self) -> ParserView {
        ParserView {
            defs: self.options.deep_view(),
            vals: self.option_values.deep_view(),
            header: self.header@,
            footer: self.footer@,
        }
    }
}

impl CliOptionParser {
    /// The parser's invariants: the model tables are well formed and the
    /// shared empty value list is empty.
    pub closed spec fn wf(&self) -> bool {
        wf_model(self@) && self.empty_option_list@.len() == 0
    }

    /// Creates a parser with the given header and footer text and no
    /// registered options.
    pub fn new(header: String, footer: String) -> (r: CliOptionParser)
        ensures
            r.wf(),
            r@.defs.len() == 0,
            r@.vals.len() == 0,
            r@.header == header@,
            r@.footer == footer@,
    {
        CliOptionParser {
            options: Vec::new(),
            option_values: Vec::new(),
            empty_option_list: Vec::new(),
            header,
            footer,
        }
    }

    /// Index of the value state for `name`, or `None` when the name has no
    /// state.
    fn find_value_index(&self, name: &String) -> (r: Option<usize>)
        ensures
            match r {
                Some(i) => i < self.option_values@.len() && find_val(self@.vals, name@) == i as int,
                None => find_val(self@.vals, name@) == -1,
            },
    {
        let mut i: usize = 0;
        while i < self.option_values.len()
            invariant
                i <= self.option_values@.len(),
                crate::model::find_val_from(self@.vals, name@, 0) == crate::model::find_val_from(
                    self@.vals,
                    name@,
                    i as int,
                ),
            decreases self.option_values@.len() - i,
        {
            if self.option_values[i].name == *name {
                assert(self@.vals[i as int].name == name@);
                return Some(i);
            }
            assert(self@.vals[i as int].name != name@);
            i += 1;
        }
        None
    }

    /// Whether the option named `name` was recognized during scanning: false
    /// for a name with no value state, the stored flag otherwise.
    pub fn is_enabled(&self, name: &str) -> (r: bool)
        ensures
            r == enabled_of(self@.vals, name@),
    {
        let key = name.to_owned();
        match self.find_value_index(&key) {
            Some(i) => self.option_values[i].is_enabled(),
            None => false,
        }
    }

    /// The values collected for `name` during scanning, in order, or the
    /// shared empty list when the name is not enabled.
    pub fn get_option_values(&self, name: &str) -> (r: &Vec<String>)
        requires
            self.wf(),
        ensures
            r.deep_view() == values_of(self@.vals, name@),
    {
        let key = name.to_owned();
        match self.find_value_index(&key) {
            Some(i) => {
                if self.option_values[i].is_enabled() {
                    self.option_values[i].values()
                } else {
                    assert(self.empty_option_list.deep_view() =~= values_of(self@.vals, name@));
                    &self.empty_option_list
                }
            },
            None => {
                assert(self.empty_option_list.deep_view() =~= values_of(self@.vals, name@));
                &self.empty_option_list
            },
        }
    }

    /// Whether some definition carries name `name`.
    fn contains_name(&self, name: &String) -> (r: bool)
        ensures
            r == name_registered(self@.defs, name@),
    {
        let mut i: usize = 0;
        while i < self.options.len()
            invariant
                i <= self.options@.len(),
                forall|j: int| 0 <= j < i ==> (#[trigger] self@.defs[j]).name != name@,
            decreases self.options@.len() - i,
        {
            if self.options[i].name == *name {
                assert(self@.defs[i as int].name == name@);
                return true;
            }
            assert(self@.defs[i as int].name != name@);
            i += 1;
        }
        false
    }

    /// Index of the first definition whose short form is `form`, or `None`.
    fn find_short_index(&self, form: &String) -> (r: Option<usize>)
        ensures
            match r {
                Some(i) => i < self.options@.len() && find_short_from(self@.defs, form@, 0)
                    == i as int,
                None => find_short_from(self@.defs, form@, 0) == -1,
            },
    {
        let mut i: usize = 0;
        while i < self.options.len()
            invariant
                i <= self.options@.len(),
                find_short_from(self@.defs, form@, 0) == find_short_from(
                    self@.defs,
                    form@,
                    i as int,
                ),
            decreases self.options@.len() - i,
        {
            let matched = match &self.options[i].short_form {
                Some(sf) => *sf == *form,
                None => false,
            };
            if matched {
                assert(self@.defs[i as int].short_form == Some(form@));
                return Some(i);
            }
            assert(self@.defs[i as int].short_form != Some(form@));
            i += 1;
        }
        None
    }

    /// Index of the first definition whose long form is `form`, or `None`.
    fn find_long_index(&self, form: &String) -> (r: Option<usize>)
        ensures
            match r {
                Some(i) => i < self.options@.len() && find_long_from(self@.defs, form@, 0)
                    == i as int,
                None => find_long_from(self@.defs, form@, 0) == -1,
            },
    {
        let mut i: usize = 0;
        while i < self.options.len()
            invariant
                i <= self.options@.len(),
                find_long_from(self@.defs, form@, 0) == find_long_from(
                    self@.defs,
                    form@,
                    i as int,
                ),
            decreases self.options@.len() - i,
        {
            let matched = match &self.options[i].long_form {
                Some(lf) => *lf == *form,
                None => false,
            };
            if matched {
                assert(self@.defs[i as int].long_form == Some(form@));
                return Some(i);
            }
            assert(self@.defs[i as int].long_form != Some(form@));
            i += 1;
        }
        None
    }

    /// Registers an option under `name` with the given forms and help text.
    ///
    /// Rejects a name that is already registered, an option with neither
    /// form, and a short or long form that is already bound to a name, in
    /// that order of checks; a rejected registration leaves the parser
    /// unchanged.
    pub fn register_option(
        &mut self,
        short_form: Option<String>,
        long_form: Option<String>,
        help_text: &str,
        name: &str,
    ) -> (r: Result<(), RegisterError>)
        ensures
            ({
                let outcome = register_outcome(
                    old(self)@.defs,
                    short_form.deep_view(),
                    long_form.deep_view(),
                    name@,
                );
                match outcome {
                    None => r == Ok::<(), RegisterError>(()) && final(self)@ == register_model(
                        old(self)@,
                        short_form.deep_view(),
                        long_form.deep_view(),
                        help_text@,
                        name@,
                    ),
                    Some(e) => r == Err::<(), RegisterError>(e) && final(self)@ == old(self)@,
                }
            }),
            old(self).wf() ==> final(self).wf(),
    {
        let name_string = name.to_owned();
        if self.contains_name(&name_string) {
            return Err(RegisterError::DuplicateName);
        }
        if short_form.is_none() && long_form.is_none() {
            return Err(RegisterError::MissingForms);
        }
        if let Some(sf) = short_form.as_ref() {
            if self.find_short_index(sf).is_some() {
                return Err(RegisterError::DuplicateShortForm);
            }
        }
        if let Some(lf) = long_form.as_ref() {
            if self.find_long_index(lf).is_some() {
                return Err(RegisterError::DuplicateLongForm);
            }
        }
        let help_string = help_text.to_owned();
        let ghost old_model = self@;
        self.options.push(
            CliOption {
                name: name_string.clone(),
                short_form,
                long_form,
                help_text: help_string,
            },
        );
        self.option_values.push(
            OptionValue { name: name_string, is_enabled: false, values: Vec::new() },
        );
        proof {
            let m2 = register_model(
                old_model,
                short_form.deep_view(),
                long_form.deep_view(),
                help_text@,
                name@,
            );
            assert(self@.defs =~~= m2.defs);
            assert(self@.vals =~~= m2.vals);
            assert(self@ =~~= m2);
            if old(self).wf() {
                lemma_register_preserves_wf(
                    old_model,
                    short_form.deep_view(),
                    long_form.deep_view(),
                    help_text@,
                    name@,
                );
            }
        }
        Ok(())
    }

    /// Marks the option named `option_name` enabled, creating a fresh value
    /// state for it if none exists.
    fn enable_option(&mut self, option_name: String)
        ensures
            final(self)@.vals == enable_state(old(self)@.vals, option_name@),
            final(self)@.defs == old(self)@.defs,
            final(self)@.header == old(self)@.header,
            final(self)@.footer == old(self)@.footer,
            final(self).empty_option_list == old(self).empty_option_list,
    {
        match self.find_value_index(&option_name) {
            Some(i) => {
                self.option_values[i].is_enabled = true;
                assert(self@.vals =~~= enable_state(old(self)@.vals, option_name@));
            },
            None => {
                self.option_values.push(
                    OptionValue { name: option_name, is_enabled: true, values: Vec::new() },
                );
                assert(self@.vals =~~= enable_state(old(self)@.vals, option_name@));
            },
        }
    }

    /// Appends `value` to the values of the option named `option_name` and
    /// marks it enabled, creating a fresh value state for it if none exists.
    fn add_value_to_option(&mut self, option_name: String, value: String)
        ensures
            final(self)@.vals == add_value_state(old(self)@.vals, option_name@, value@),
            final(self)@.defs == old(self)@.defs,
            final(self)@.header == old(self)@.header,
            final(self)@.footer == old(self)@.footer,
            final(self).empty_option_list == old(self).empty_option_list,
    {
        match self.find_value_index(&option_name) {
            Some(i) => {
                self.option_values[i].values.push(value);
                self.option_values[i].is_enabled = true;
                assert(self@.vals =~~= add_value_state(old(self)@.vals, option_name@, value@));
            },
            None => {
                let mut values: Vec<String> = Vec::new();
                values.push(value);
                self.option_values.push(
                    OptionValue { name: option_name, is_enabled: true, values },
                );
                assert(self@.vals =~~= add_value_state(old(self)@.vals, option_name@, value@));
            },
        }
    }

    /// Scans the given tokens in order and returns the positional arguments.
    ///
    /// Each token transforms the value states and the positional output by
    /// one `scan_token` step of the model: recognized option tokens enable
    /// their option and collect values, unrecognized option tokens are
    /// silently discarded, and tokens with no option prefix are returned in
    /// their original relative order.
    pub fn parse_from(&mut self, args: Vec<String>) -> (r: Vec<String>)
        ensures
            final(self)@.vals == scan_tokens(
                old(self)@.defs,
                old(self)@.vals,
                args.deep_view(),
                Seq::empty(),
            ).0,
            r.deep_view() == scan_tokens(
                old(self)@.defs,
                old(self)@.vals,
                args.deep_view(),
                Seq::empty(),
            ).1,
            final(self)@.defs == old(self)@.defs,
            final(self)@.header == old(self)@.header,
            final(self)@.footer == old(self)@.footer,
            old(self).wf() ==> final(self).wf(),
    {
        let mut arguments: Vec<String> = Vec::new();
        let ghost defs0 = self@.defs;
        let ghost vals0 = self@.vals;
        let ghost header0 = self@.header;
        let ghost footer0 = self@.footer;
        let ghost empty0 = self.empty_option_list@;
        let ghost toks = args.deep_view();
        proof {
            assert(toks.skip(0) =~= toks);
            assert(arguments.deep_view() =~= Seq::<Seq<char>>::empty());
        }
        let mut idx: usize = 0;
        while idx < args.len()
            invariant
                idx <= args@.len(),
                toks == args.deep_view(),
                self@.defs == defs0,
                self@.header == header0,
                self@.footer == footer0,
                self.empty_option_list@ == empty0,
                scan_tokens(defs0, vals0, toks, Seq::empty()) == scan_tokens(
                    defs0,
                    self@.vals,
                    toks.skip(idx as int),
                    arguments.deep_view(),
                ),
            decreases args@.len() - idx,
        {
            let ghost idx0 = idx as int;
            let ghost prev_vals = self@.vals;
            let ghost prev_args = arguments.deep_view();
            let arg = &args[idx];
            proof {
                assert(arg@ == toks[idx0]);
            }
            let n = arg.as_str().unicode_len();
            if n >= 2 && arg.as_str().get_char(0) == '-' && arg.as_str().get_char(1) == '-' {
                assert(long_prefixed(arg@));
                match find_eq_pos(arg) {
                    Some(p) => {
                        let option_text = arg.as_str().substring_char(0, p).to_owned();
                        let value_text = arg.as_str().substring_char(p + 1, n).to_owned();
                        match self.find_long_index(&option_text) {
                            Some(i) => {
                                let option_name = self.options[i].name.clone();
                                assert(lookup_long(defs0, option_text@) == Some(option_name@));
                                self.add_value_to_option(option_name, value_text);
                            },
                            None => {
                                assert(lookup_long(defs0, option_text@) is None);
                            },
                        }
                    },
                    None => {
                        match self.find_long_index(arg) {
                            Some(i) => {
                                let option_name = self.options[i].name.clone();
                                assert(lookup_long(defs0, arg@) == Some(option_name@));
                                self.enable_option(option_name);
                            },
                            None => {
                                assert(lookup_long(defs0, arg@) is None);
                            },
                        }
                    },
                }
            } else if n >= 1 && arg.as_str().get_char(0) == '-' {
                assert(!long_prefixed(arg@) && dash_prefixed(arg@));
                if n > 1 {
                    let option_text = arg.as_str().substring_char(0, 2).to_owned();
                    let value_text = arg.as_str().substring_char(2, n).to_owned();
                    match self.find_short_index(&option_text) {
                        Some(i) => {
                            let option_name = self.options[i].name.clone();
                            assert(lookup_short(defs0, option_text@) == Some(option_name@));
                            self.add_value_to_option(option_name, value_text);
                        },
                        None => {
                            assert(lookup_short(defs0, option_text@) is None);
                        },
                    }
                } else {
                    match self.find_short_index(arg) {
                        Some(i) => {
                            let option_name = self.options[i].name.clone();
                            assert(lookup_short(defs0, arg@) == Some(option_name@));
                            self.enable_option(option_name);
                        },
                        None => {
                            assert(lookup_short(defs0, arg@) is None);
                        },
                    }
                }
            } else {
                assert(!long_prefixed(arg@) && !dash_prefixed(arg@));
                arguments.push(arg.clone());
                assert(arguments.deep_view() =~= prev_args.push(toks[idx0]));
            }
            proof {
                let stepped = scan_token(defs0, prev_vals, prev_args, toks[idx0]);
                assert(self@.vals == stepped.0 && arguments.deep_view() == stepped.1);
                let s = toks.skip(idx0);
                assert(s[0] == toks[idx0]);
                assert(s.drop_first() =~= toks.skip(idx0 + 1));
                assert(scan_tokens(defs0, prev_vals, s, prev_args) == scan_tokens(
                    defs0,
                    self@.vals,
                    toks.skip(idx0 + 1),
                    arguments.deep_view(),
                ));
            }
            idx += 1;
        }
        proof {
            assert(toks.skip(args@.len() as int) =~= Seq::<Seq<char>>::empty());
            if old(self).wf() {
                lemma_scan_tokens_preserves_wf(defs0, vals0, toks, Seq::empty());
            }
        }
        arguments
    }

    /// Renders the help message: the header, a blank line, one line per
    /// registered option in registration order, a blank line, the footer, and
    /// a trailing blank line. Each option line holds the short-form column,
    /// the long-form column, and the option's help text with embedded line
    /// breaks re-indented under a tab-prefixed continuation.
    #[verifier::rlimit(50)]
    pub fn help_text(&self) -> (r: String)
        ensures
            r@ == help_model(self@),
    {
        let ghost defs = self@.defs;
        let mut out = String::new();
        out.append(self.header.as_str());
        out.append("\n\n");
        let mut i: usize = 0;
        while i < self.options.len()
            invariant
                i <= self.options@.len(),
                defs == self@.defs,
                out@ == self@.header + "\n\n"@ + help_lines(defs.subrange(0, i as int)),
            decreases self.options@.len() - i,
        {
            match self.options[i].short_form.as_ref() {
                Some(s) => {
                    out.append(s.as_str());
                    out.append("    ");
                },
                None => {
                    out.append("     ");
                },
            }
            assert(out@ == self@.header + "\n\n"@ + help_lines(defs.subrange(0, i as int))
                + form_column(defs[i as int].short_form));
            match self.options[i].long_form.as_ref() {
                Some(l) => {
                    out.append(l.as_str());
                    out.append("    ");
                },
                None => {
                    out.append("     ");
                },
            }
            out.append("     ");
            let ghost line_prefix = out@;
            assert(line_prefix == self@.header + "\n\n"@ + help_lines(defs.subrange(0, i as int))
                + form_column(defs[i as int].short_form) + form_column(defs[i as int].long_form)
                + "     "@);
            let h = &self.options[i].help_text;
            let hn = h.as_str().unicode_len();
            let mut j: usize = 0;
            while j < hn
                invariant
                    j <= hn,
                    hn == h@.len(),
                    out@ == line_prefix + indent_help(h@.subrange(0, j as int)),
                decreases hn - j,
            {
                let c = h.as_str().get_char(j);
                if c == '\n' {
                    out.append("\n\t\t\t");
                    proof {
                        reveal_strlit("\n\t\t\t");
                        assert("\n\t\t\t"@ =~= indent_unit('\n'));
                    }
                } else {
                    out.append(h.as_str().substring_char(j, j + 1));
                    assert(h@.subrange(j as int, j as int + 1) =~= indent_unit(h@[j as int]));
                }
                proof {
                    let sub1 = h@.subrange(0, j as int + 1);
                    assert(sub1.drop_last() =~= h@.subrange(0, j as int));
                    assert(sub1.last() == h@[j as int]);
                    assert(indent_help(sub1) == indent_help(h@.subrange(0, j as int)) + indent_unit(
                        h@[j as int],
                    ));
                    assert(out@ =~= line_prefix + indent_help(sub1));
                }
                j += 1;
            }
            out.append("\n");
            proof {
                assert(h@.subrange(0, hn as int) =~= h@);
                let dsub1 = defs.subrange(0, i as int + 1);
                assert(dsub1.drop_last() =~= defs.subrange(0, i as int));
                assert(dsub1.last() == defs[i as int]);
                assert(help_lines(dsub1) == help_lines(defs.subrange(0, i as int)) + help_line(
                    defs[i as int],
                ));
                assert(out@ =~= self@.header + "\n\n"@ + help_lines(dsub1));
            }
            i += 1;
        }
        proof {
            assert(defs.subrange(0, defs.len() as int) =~= defs);
        }
        out.append("\n");
        out.append(self.footer.as_str());
        out.append("\n\n");
        proof {
            assert(out@ =~= help_model(self@));
        }
        out
    }
}

} // verus!
