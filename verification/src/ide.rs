//! The annotation store and the fact model: an append-only, order-preserving
//! multimap from source location to typed annotation facts.

use crate::alias::AliasAutocompleteInfo;
use crate::loc::Loc;
use crate::pattern::PatternSuggestion;
use vstd::prelude::*;

verus! {

/// A macro call site: where the macro lives, how it was named, and what was
/// passed at the call.
#[derive(Debug, Clone)]
pub struct MacroCallInfo {
    /// Module where the macro is defined.
    pub module: String,
    /// Name of the macro function.
    pub name: String,
    /// Method alias, present only when the macro was invoked as a dot-call.
    pub method_name: Option<String>,
    /// Type arguments at the call site, each in display form.
    pub type_arguments: Vec<String>,
    /// By-value arguments in display form; in practice at most one, the
    /// receiver.
    pub by_value_args: Vec<String>,
}

/// One method candidate for dot autocompletion.
#[derive(Debug, Clone)]
pub struct AutocompleteMethod {
    pub method_name: String,
    /// The module where the function the method resolves to is defined.
    pub target_module: String,
    /// The name of the function the method resolves to.
    pub target_function_name: String,
}

impl AutocompleteMethod {
    pub fn new(method_name: String, target_function: (String, String)) -> (r: AutocompleteMethod)
        ensures
            r == (AutocompleteMethod {
                method_name,
                target_module: target_function.0,
                target_function_name: target_function.1,
            }),
    {
        AutocompleteMethod {
            method_name,
            target_module: target_function.0,
            target_function_name: target_function.1,
        }
    }
}

/// Dot-autocomplete candidates: callable methods and accessible fields.
#[derive(Debug, Clone)]
pub struct DotAutocompleteInfo {
    /// Methods that are valid autocompletes.
    pub methods: Vec<AutocompleteMethod>,
    /// Fields that are valid autocompletes, with their types' display forms.
    pub fields: Vec<(String, String)>,
}

/// Match arm patterns that can be inserted to make a match complete.
#[derive(Debug, Clone)]
pub struct MissingMatchArmsInfo {
    pub arms: Vec<PatternSuggestion>,
}

/// Binders synthesized for a `..` entry in a structural pattern.
#[derive(Debug, Clone)]
pub enum EllipsisMatchEntries {
    /// Wildcards inserted for the ellipsis in a positional pattern.
    Positional(Vec<String>),
    /// Names mapped to wildcards, added to a named pattern.
    Named(Vec<String>),
}

/// An individual annotation fact.
#[derive(Debug, Clone)]
pub enum IDEAnnotation {
    /// A macro call site.
    MacroCallInfo(Box<MacroCallInfo>),
    /// An expanded lambda site; a marker with no payload.
    ExpandedLambda,
    /// Dot autocomplete candidates.
    DotAutocompleteInfo(Box<DotAutocompleteInfo>),
    /// Path autocomplete candidates: an alias snapshot.
    PathAutocompleteInfo(Box<AliasAutocompleteInfo>),
    /// Missing match arms.
    MissingMatchArms(Box<MissingMatchArmsInfo>),
    /// Ellipsis expansion in a match pattern.
    EllipsisMatchEntries(Box<EllipsisMatchEntries>),
}

/// The annotation store: an ordered sequence of (location, fact) pairs.
/// Append-only while a checking pass runs; insertion order is preserved and
/// significant, so two runs that record the same facts leave equal stores.
#[derive(Debug, Clone)]
pub struct IDEInfo {
    annotations: Vec<(Loc, IDEAnnotation)>,
}

impl View for IDEInfo {
    type V = Seq<(Loc, IDEAnnotation)>;

    closed spec fn view(&self) -> Seq<(Loc, IDEAnnotation)> {
        self.annotations@
    }
}

impl IDEInfo {
    /// An empty store.
    pub fn new() -> (r: IDEInfo)
        ensures
            r@ == Seq::<(Loc, IDEAnnotation)>::empty(),
    {
        IDEInfo { annotations: Vec::new() }
    }

    /// Append one fact at `loc`; facts are never removed or reordered.
    pub fn add_ide_annotation(&mut self, loc: Loc, info: IDEAnnotation)
        ensures
            final(self)@ == old(self)@.push((loc, info)),
    {
        self.annotations.push((loc, info));
    }

    /// Append all of `other`'s pairs after this store's, preserving both
    /// internal orders.
    pub fn extend(&mut self, other: IDEInfo)
        ensures
            final(self)@ == old(self)@ + other@,
    {
        let mut o = other;
        self.annotations.append(&mut o.annotations);
    }

    /// Were any facts recorded?
    pub fn is_empty(&self) -> (r: bool)
        ensures
            r == (self@.len() == 0),
    {
        self.annotations.is_empty()
    }

    /// The recorded pairs, in insertion order.
    pub fn iter(&self) -> (r: &Vec<(Loc, IDEAnnotation)>)
        ensures
            r@ == self@,
    {
        &self.annotations
    }

    /// Mutable access to the recorded pairs, for a checking pass that
    /// rewrites facts in place; the store afterwards holds exactly what the
    /// caller leaves in the vector.
    pub fn iter_mut(&mut self) -> (r: &mut Vec<(Loc, IDEAnnotation)>)
        ensures
            (*r)@ == old(self)@,
            final(self)@ == (*final(r))@,
    {
        &mut self.annotations
    }

    /// The positions, in order, of every fact whose span contains the cursor
    /// `(file, offset)`: the linear-scan filter behind a "symbols at cursor"
    /// query.
    pub fn annotations_containing(&self, file: u32, offset: u32) -> (r: Vec<usize>)
        ensures
            forall|p: int, q: int| 0 <= p < q < r@.len() ==> r@[p] < r@[q],
            forall|k: int|
                0 <= k < r@.len() ==> r@[k] < self@.len() && (#[trigger] self@[r@[k] as int]).0.spec_contains(
                    file,
                    offset,
                ),
            forall|i: int|
                0 <= i < self@.len() && (#[trigger] self@[i]).0.spec_contains(file, offset)
                    ==> r@.contains(i as usize),
    {
        let mut r: Vec<usize> = Vec::new();
        let n = self.annotations.len();
        let mut i: usize = 0;
        while i < n
            invariant
                i <= n,
                n == self@.len(),
                forall|p: int, q: int| 0 <= p < q < r@.len() ==> r@[p] < r@[q],
                forall|k: int| 0 <= k < r@.len() ==> r@[k] < i,
                forall|k: int|
                    0 <= k < r@.len() ==> (#[trigger] self@[r@[k] as int]).0.spec_contains(
                        file,
                        offset,
                    ),
                forall|j: int|
                    0 <= j < i && (#[trigger] self@[j]).0.spec_contains(file, offset)
                        ==> r@.contains(j as usize),
            decreases n - i,
        {
            if self.annotations[i].0.contains(file, offset) {
                let ghost r_prev = r@;
                r.push(i);
                proof {
                    assert(r@ == r_prev.push(i));
                    assert forall|j: int|
                        0 <= j < i + 1 && (#[trigger] self@[j]).0.spec_contains(file, offset)
                            implies r@.contains(j as usize) by {
                        if j < i {
                            assert(r_prev.contains(j as usize));
                            let k = choose|k: int|
                                0 <= k < r_prev.len() && r_prev[k] == j as usize;
                            assert(r@[k] == j as usize);
                        } else {
                            assert(r@[r@.len() - 1] == i);
                        }
                    }
                }
            }
            i += 1;
        }
        r
    }
}

impl Default for IDEInfo {
    /// An empty store.
    fn default() -> (r: IDEInfo)
        ensures
            r@ == Seq::<(Loc, IDEAnnotation)>::empty(),
    {
        IDEInfo::new()
    }
}

} // verus!
