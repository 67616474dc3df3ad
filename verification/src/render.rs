//! Rendering: the pure mapping from one (location, fact) pair to a
//! diagnostic record, used uniformly for golden-file testing and for
//! informational surfacing.

use crate::alias::AliasAutocompleteInfo;
use crate::ide::AutocompleteMethod;
use crate::ide::DotAutocompleteInfo;
use crate::ide::EllipsisMatchEntries;
use crate::ide::IDEAnnotation;
use crate::ide::MacroCallInfo;
use crate::loc::Loc;
use crate::pattern::pattern_text;
use crate::pattern::PatternSuggestion;
use crate::text::join_seqs;
use crate::text::join_strings;
use crate::text::oxford_join;
use crate::text::oxford_list_quoted;
use crate::text::quote_all;
use vstd::prelude::*;
use vstd::string::StrSliceExecFns;
use vstd::string::StringExecFns;

verus! {

/// The category tag a rendered fact carries.
#[derive(Debug, Clone, Copy, PartialEq, Eq, Structural)]
pub enum DiagnosticCode {
    MacroCallInfo,
    ExpandedLambda,
    Autocomplete,
    MissingMatchArms,
    EllipsisExpansion,
}

/// A rendered diagnostic: a category tag, the anchoring location, a primary
/// message, and zero or more supplementary notes.
#[derive(Debug, Clone)]
pub struct Diagnostic {
    pub code: DiagnosticCode,
    pub loc: Loc,
    pub message: String,
    pub notes: Vec<String>,
}

pub open spec fn code_of(a: IDEAnnotation) -> DiagnosticCode {
    match a {
        IDEAnnotation::MacroCallInfo(_) => DiagnosticCode::MacroCallInfo,
        IDEAnnotation::ExpandedLambda => DiagnosticCode::ExpandedLambda,
        IDEAnnotation::DotAutocompleteInfo(_) => DiagnosticCode::Autocomplete,
        IDEAnnotation::PathAutocompleteInfo(_) => DiagnosticCode::Autocomplete,
        IDEAnnotation::MissingMatchArms(_) => DiagnosticCode::MissingMatchArms,
        IDEAnnotation::EllipsisMatchEntries(_) => DiagnosticCode::EllipsisExpansion,
    }
}

/// `name -> module::member` for each member alias.
pub open spec fn member_candidates(s: Seq<(String, String, String)>) -> Seq<Seq<char>> {
    s.map_values(|t: (String, String, String)| t.0@ + " -> "@ + t.1@ + "::"@ + t.2@)
}

/// `name -> target` for a module or address alias.
pub open spec fn arrow_candidates(s: Seq<(String, String)>) -> Seq<Seq<char>> {
    s.map_values(|t: (String, String)| t.0@ + " -> "@ + t.1@)
}

/// Every candidate name of a path-autocomplete snapshot, in the fixed
/// category order: members, then modules, then addresses, then type
/// parameters, each group in its snapshot's sorted order.
pub open spec fn path_candidates(info: AliasAutocompleteInfo) -> Seq<Seq<char>> {
    member_candidates(info.members@) + arrow_candidates(info.modules@) + arrow_candidates(
        info.addresses@,
    ) + info.type_params.deep_view()
}

/// `module::method` for each method candidate.
pub open spec fn method_candidates(s: Seq<AutocompleteMethod>) -> Seq<Seq<char>> {
    s.map_values(|m: AutocompleteMethod| m.target_module@ + "::"@ + m.method_name@)
}

/// The bare name of each field candidate.
pub open spec fn field_candidates(s: Seq<(String, String)>) -> Seq<Seq<char>> {
    s.map_values(|f: (String, String)| f.0@)
}

/// Every dot-callable name: methods as `module::method`, then bare field
/// names.
pub open spec fn dot_candidates(info: DotAutocompleteInfo) -> Seq<Seq<char>> {
    method_candidates(info.methods@) + field_candidates(info.fields@)
}

/// The rendered text of each suggested arm.
pub open spec fn arm_texts(arms: Seq<PatternSuggestion>) -> Seq<Seq<char>> {
    arms.map_values(|p: PatternSuggestion| pattern_text(p))
}

/// `name: _` for each synthesized named binder.
pub open spec fn named_wildcards(names: Seq<String>) -> Seq<Seq<char>> {
    names.map_values(|n: String| n@ + ": _"@)
}

/// The conditional notes of a macro-call fact, in their fixed order: the
/// dot-call alias when present, the type arguments when any, the receiver
/// argument when any.
pub open spec fn macro_notes(info: MacroCallInfo) -> Seq<Seq<char>> {
    (match info.method_name {
        Some(m) => seq!["as method call "@ + m@],
        None => Seq::<Seq<char>>::empty(),
    }) + (if info.type_arguments@.len() > 0 {
        seq!["Type arguments: "@ + join_seqs(info.type_arguments.deep_view(), ", "@)]
    } else {
        Seq::<Seq<char>>::empty()
    }) + (if info.by_value_args@.len() > 0 {
        seq!["Subject arg: "@ + info.by_value_args@[0]@]
    } else {
        Seq::<Seq<char>>::empty()
    })
}

/// The primary message of a fact.
pub open spec fn message_of(a: IDEAnnotation) -> Seq<char> {
    match a {
        IDEAnnotation::MacroCallInfo(info) => "Called "@ + info.module@ + "::"@ + info.name@,
        IDEAnnotation::ExpandedLambda => "expanded lambda"@,
        IDEAnnotation::DotAutocompleteInfo(info) => "Possible dot names: "@ + oxford_join(
            quote_all(dot_candidates(*info)),
            "or"@,
        ),
        IDEAnnotation::PathAutocompleteInfo(info) => "Possible in-scope names: "@ + oxford_join(
            quote_all(path_candidates(*info)),
            "or"@,
        ),
        IDEAnnotation::MissingMatchArms(info) => "Missing arms: "@ + oxford_join(
            quote_all(arm_texts(info.arms@)),
            "and"@,
        ),
        IDEAnnotation::EllipsisMatchEntries(e) => "Ellipsis expansion: "@ + (match *e {
            EllipsisMatchEntries::Positional(names) => join_seqs(names.deep_view(), ", "@),
            EllipsisMatchEntries::Named(names) => join_seqs(named_wildcards(names@), ", "@),
        }),
    }
}

/// The notes of a fact; only macro-call facts carry any.
pub open spec fn notes_of(a: IDEAnnotation) -> Seq<Seq<char>> {
    match a {
        IDEAnnotation::MacroCallInfo(info) => macro_notes(*info),
        _ => Seq::<Seq<char>>::empty(),
    }
}

/// Build the candidate-name strings of a path-autocomplete snapshot.
fn path_candidate_strings(info: &AliasAutocompleteInfo) -> (r: Vec<String>)
    ensures
        r.deep_view() == path_candidates(*info),
{
    let mut r: Vec<String> = Vec::new();
    proof {
        assert(r.deep_view() =~= member_candidates(info.members@.take(0)));
    }
    let mut i: usize = 0;
    while i < info.members.len()
        invariant
            i <= info.members@.len(),
            r.deep_view() == member_candidates(info.members@.take(i as int)),
        decreases info.members@.len() - i,
    {
        let t = &info.members[i];
        let mut s = t.0.clone();
        s.append(" -> ");
        s.append(t.1.as_str());
        s.append("::");
        s.append(t.2.as_str());
        let ghost sv = s@;
        r.push(s);
        proof {
            let mc = member_candidates(info.members@);
            assert(mc[i as int] == info.members@[i as int].0@ + " -> "@
                + info.members@[i as int].1@ + "::"@ + info.members@[i as int].2@);
            assert(member_candidates(info.members@.take(i as int)) =~= mc.take(i as int));
            assert(r.deep_view() =~= mc.take(i as int).push(sv));
            assert(mc.take(i as int).push(mc[i as int]) =~= mc.take(i + 1));
            assert(member_candidates(info.members@.take(i + 1)) =~= mc.take(i + 1));
        }
        i += 1;
    }
    proof {
        assert(info.members@.take(info.members@.len() as int) =~= info.members@);
        assert(r.deep_view() =~= member_candidates(info.members@) + arrow_candidates(
            info.modules@.take(0),
        ));
    }
    let ghost done_members = member_candidates(info.members@);
    let mut i: usize = 0;
    while i < info.modules.len()
        invariant
            i <= info.modules@.len(),
            r.deep_view() == done_members + arrow_candidates(info.modules@.take(i as int)),
        decreases info.modules@.len() - i,
    {
        let t = &info.modules[i];
        let mut s = t.0.clone();
        s.append(" -> ");
        s.append(t.1.as_str());
        let ghost sv = s@;
        r.push(s);
        proof {
            let ac = arrow_candidates(info.modules@);
            assert(ac[i as int] == info.modules@[i as int].0@ + " -> "@
                + info.modules@[i as int].1@);
            assert(arrow_candidates(info.modules@.take(i as int)) =~= ac.take(i as int));
            assert(r.deep_view() =~= (done_members + ac.take(i as int)).push(sv));
            assert((done_members + ac.take(i as int)).push(ac[i as int]) =~= done_members
                + ac.take(i + 1));
            assert(arrow_candidates(info.modules@.take(i + 1)) =~= ac.take(i + 1));
        }
        i += 1;
    }
    proof {
        assert(info.modules@.take(info.modules@.len() as int) =~= info.modules@);
        assert(r.deep_view() =~= done_members + arrow_candidates(info.modules@)
            + arrow_candidates(info.addresses@.take(0)));
    }
    let ghost done_modules = done_members + arrow_candidates(info.modules@);
    let mut i: usize = 0;
    while i < info.addresses.len()
        invariant
            i <= info.addresses@.len(),
            r.deep_view() == done_modules + arrow_candidates(info.addresses@.take(i as int)),
        decreases info.addresses@.len() - i,
    {
        let t = &info.addresses[i];
        let mut s = t.0.clone();
        s.append(" -> ");
        s.append(t.1.as_str());
        let ghost sv = s@;
        r.push(s);
        proof {
            let ac = arrow_candidates(info.addresses@);
            assert(ac[i as int] == info.addresses@[i as int].0@ + " -> "@
                + info.addresses@[i as int].1@);
            assert(arrow_candidates(info.addresses@.take(i as int)) =~= ac.take(i as int));
            assert(r.deep_view() =~= (done_modules + ac.take(i as int)).push(sv));
            assert((done_modules + ac.take(i as int)).push(ac[i as int]) =~= done_modules
                + ac.take(i + 1));
            assert(arrow_candidates(info.addresses@.take(i + 1)) =~= ac.take(i + 1));
        }
        i += 1;
    }
    proof {
        assert(info.addresses@.take(info.addresses@.len() as int) =~= info.addresses@);
        assert(r.deep_view() =~= done_modules + arrow_candidates(info.addresses@)
            + info.type_params.deep_view().take(0));
    }
    let ghost done_addresses = done_modules + arrow_candidates(info.addresses@);
    let mut i: usize = 0;
    while i < info.type_params.len()
        invariant
            i <= info.type_params@.len(),
            r.deep_view() == done_addresses + info.type_params.deep_view().take(i as int),
        decreases info.type_params@.len() - i,
    {
        let tp = info.type_params[i].clone();
        let ghost sv = tp@;
        r.push(tp);
        proof {
            let dv = info.type_params.deep_view();
            assert(dv[i as int] == info.type_params@[i as int]@);
            assert(r.deep_view() =~= (done_addresses + dv.take(i as int)).push(sv));
            assert((done_addresses + dv.take(i as int)).push(dv[i as int]) =~= done_addresses
                + dv.take(i + 1));
        }
        i += 1;
    }
    proof {
        assert(info.type_params.deep_view().take(info.type_params@.len() as int)
            =~= info.type_params.deep_view());
        assert(r.deep_view() =~= path_candidates(*info));
    }
    r
}

/// Build the dot-callable name strings.
fn dot_candidate_strings(info: &DotAutocompleteInfo) -> (r: Vec<String>)
    ensures
        r.deep_view() == dot_candidates(*info),
{
    let mut r: Vec<String> = Vec::new();
    proof {
        assert(r.deep_view() =~= method_candidates(info.methods@).take(0));
    }
    let mut i: usize = 0;
    while i < info.methods.len()
        invariant
            i <= info.methods@.len(),
            r.deep_view() == method_candidates(info.methods@).take(i as int),
        decreases info.methods@.len() - i,
    {
        let m = &info.methods[i];
        let mut s = m.target_module.clone();
        s.append("::");
        s.append(m.method_name.as_str());
        let ghost sv = s@;
        r.push(s);
        proof {
            let mc = method_candidates(info.methods@);
            assert(mc[i as int] == info.methods@[i as int].target_module@ + "::"@
                + info.methods@[i as int].method_name@);
            assert(r.deep_view() =~= mc.take(i as int).push(sv));
            assert(mc.take(i as int).push(mc[i as int]) =~= mc.take(i + 1));
        }
        i += 1;
    }
    let ghost done_methods = method_candidates(info.methods@);
    proof {
        assert(done_methods.take(info.methods@.len() as int) =~= done_methods);
        assert(r.deep_view() =~= done_methods + field_candidates(info.fields@).take(0));
    }
    let mut i: usize = 0;
    while i < info.fields.len()
        invariant
            i <= info.fields@.len(),
            r.deep_view() == done_methods + field_candidates(info.fields@).take(i as int),
        decreases info.fields@.len() - i,
    {
        let f = info.fields[i].0.clone();
        let ghost sv = f@;
        r.push(f);
        proof {
            let fc = field_candidates(info.fields@);
            assert(fc[i as int] == info.fields@[i as int].0@);
            assert(r.deep_view() =~= (done_methods + fc.take(i as int)).push(sv));
            assert((done_methods + fc.take(i as int)).push(fc[i as int]) =~= done_methods
                + fc.take(i + 1));
        }
        i += 1;
    }
    proof {
        assert(field_candidates(info.fields@).take(info.fields@.len() as int) =~= field_candidates(
            info.fields@,
        ));
        assert(r.deep_view() =~= dot_candidates(*info));
    }
    r
}

/// Render each suggested arm to its pattern text.
fn arm_text_strings(arms: &Vec<PatternSuggestion>) -> (r: Vec<String>)
    ensures
        r.deep_view() == arm_texts(arms@),
{
    let mut r: Vec<String> = Vec::new();
    proof {
        assert(r.deep_view() =~= arm_texts(arms@.take(0)));
    }
    let mut i: usize = 0;
    while i < arms.len()
        invariant
            i <= arms@.len(),
            r.deep_view() == arm_texts(arms@.take(i as int)),
        decreases arms@.len() - i,
    {
        let t = arms[i].render();
        let ghost sv = t@;
        r.push(t);
        proof {
            let at = arm_texts(arms@);
            assert(at[i as int] == pattern_text(arms@[i as int]));
            assert(arm_texts(arms@.take(i as int)) =~= at.take(i as int));
            assert(r.deep_view() =~= at.take(i as int).push(sv));
            assert(at.take(i as int).push(at[i as int]) =~= at.take(i + 1));
            assert(arm_texts(arms@.take(i + 1)) =~= at.take(i + 1));
        }
        i += 1;
    }
    proof {
        assert(arms@.take(arms@.len() as int) =~= arms@);
    }
    r
}

/// Build `name: _` strings for the named-ellipsis case.
fn named_wildcard_strings(names: &Vec<String>) -> (r: Vec<String>)
    ensures
        r.deep_view() == named_wildcards(names@),
{
    let mut r: Vec<String> = Vec::new();
    proof {
        assert(r.deep_view() =~= named_wildcards(names@.take(0)));
    }
    let mut i: usize = 0;
    while i < names.len()
        invariant
            i <= names@.len(),
            r.deep_view() == named_wildcards(names@.take(i as int)),
        decreases names@.len() - i,
    {
        let mut s = names[i].clone();
        s.append(": _");
        let ghost sv = s@;
        r.push(s);
        proof {
            let nw = named_wildcards(names@);
            assert(nw[i as int] == names@[i as int]@ + ": _"@);
            assert(named_wildcards(names@.take(i as int)) =~= nw.take(i as int));
            assert(r.deep_view() =~= nw.take(i as int).push(sv));
            assert(nw.take(i as int).push(nw[i as int]) =~= nw.take(i + 1));
            assert(named_wildcards(names@.take(i + 1)) =~= nw.take(i + 1));
        }
        i += 1;
    }
    proof {
        assert(names@.take(names@.len() as int) =~= names@);
    }
    r
}

impl Diagnostic {
    /// Render one (location, fact) pair. Rendering is pure: the result is a
    /// function of the pair alone, the fact is only read, and rendering the
    /// same pair again yields the same diagnostic.
    pub fn from_annotation(loc: Loc, ann: &IDEAnnotation) -> (r: Diagnostic)
        ensures
            r.code == code_of(*ann),
            r.loc == loc,
            r.message@ == message_of(*ann),
            r.notes.deep_view() == notes_of(*ann),
    {
        match ann {
            IDEAnnotation::MacroCallInfo(info) => {
                let mut message = String::from_str("Called ");
                message.append(info.module.as_str());
                message.append("::");
                message.append(info.name.as_str());
                let mut notes: Vec<String> = Vec::new();
                match &info.method_name {
                    Some(m) => {
                        let mut s = String::from_str("as method call ");
                        s.append(m.as_str());
                        notes.push(s);
                    },
                    None => {},
                }
                if info.type_arguments.len() > 0 {
                    let mut s = String::from_str("Type arguments: ");
                    let j = join_strings(&info.type_arguments, ", ");
                    s.append(j.as_str());
                    notes.push(s);
                }
                if info.by_value_args.len() > 0 {
                    let mut s = String::from_str("Subject arg: ");
                    s.append(info.by_value_args[0].as_str());
                    notes.push(s);
                }
                proof {
                    assert(notes.deep_view() =~~= macro_notes(**info));
                }
                Diagnostic { code: DiagnosticCode::MacroCallInfo, loc, message, notes }
            },
            IDEAnnotation::ExpandedLambda => {
                Diagnostic {
                    code: DiagnosticCode::ExpandedLambda,
                    loc,
                    message: String::from_str("expanded lambda"),
                    notes: Vec::new(),
                }
            },
            IDEAnnotation::DotAutocompleteInfo(info) => {
                let names = dot_candidate_strings(info);
                let mut message = String::from_str("Possible dot names: ");
                let list = oxford_list_quoted(&names, "or");
                message.append(list.as_str());
                Diagnostic { code: DiagnosticCode::Autocomplete, loc, message, notes: Vec::new() }
            },
            IDEAnnotation::PathAutocompleteInfo(info) => {
                let names = path_candidate_strings(info);
                let mut message = String::from_str("Possible in-scope names: ");
                let list = oxford_list_quoted(&names, "or");
                message.append(list.as_str());
                Diagnostic { code: DiagnosticCode::Autocomplete, loc, message, notes: Vec::new() }
            },
            IDEAnnotation::MissingMatchArms(info) => {
                let texts = arm_text_strings(&info.arms);
                let mut message = String::from_str("Missing arms: ");
                let list = oxford_list_quoted(&texts, "and");
                message.append(list.as_str());
                Diagnostic {
                    code: DiagnosticCode::MissingMatchArms,
                    loc,
                    message,
                    notes: Vec::new(),
                }
            },
            IDEAnnotation::EllipsisMatchEntries(entries) => {
                let mut message = String::from_str("Ellipsis expansion: ");
                let joined = match &**entries {
                    EllipsisMatchEntries::Positional(names) => join_strings(names, ", "),
                    EllipsisMatchEntries::Named(names) => {
                        let mapped = named_wildcard_strings(names);
                        join_strings(&mapped, ", ")
                    },
                };
                message.append(joined.as_str());
                Diagnostic {
                    code: DiagnosticCode::EllipsisExpansion,
                    loc,
                    message,
                    notes: Vec::new(),
                }
            },
        }
    }
}

} // verus!
