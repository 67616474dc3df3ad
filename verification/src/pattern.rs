//! Pattern suggestions: structural descriptions of missing match arms and
//! their rendering as insertable pattern text.

use crate::text::join_seqs;
use vstd::prelude::*;
use vstd::string::StrSliceExecFns;
use vstd::string::StringExecFns;

verus! {

/// One synthesizable match arm. Suggestions are template text: any location
/// metadata a producer derived them from is already gone, and a consumer that
/// splices one into source must re-derive locations afterwards.
#[derive(Debug, Clone)]
pub enum PatternSuggestion {
    Wildcard,
    /// A bound variable, by name.
    Binder(String),
    /// A literal value, carried as its source text.
    Value(String),
    /// Renders as `Module::Type(_, _)`; zero fields still render `()`.
    UnpackPositionalStruct { module: String, name: String, field_count: usize },
    /// Renders as `Module::Type { f1 , f2 }`; an empty field list still
    /// renders the braces.
    UnpackNamedStruct { module: String, name: String, fields: Vec<String> },
    /// A tag-style variant that takes no argument list at all.
    UnpackEmptyVariant { module: String, enum_name: String, variant_name: String },
    /// Renders as `Module::Enum::Variant(_, _)`; zero fields still render `()`.
    UnpackPositionalVariant {
        module: String,
        enum_name: String,
        variant_name: String,
        field_count: usize,
    },
    /// Renders as `Module::Enum::Variant { f1 , f2 }`.
    UnpackNamedVariant {
        module: String,
        enum_name: String,
        variant_name: String,
        fields: Vec<String>,
    },
}

/// `count` wildcards joined with ", ".
pub open spec fn wildcards(count: nat) -> Seq<char> {
    join_seqs(Seq::new(count, |i: int| "_"@), ", "@)
}

/// The pattern text of one suggestion. An empty variant renders as the bare
/// tag path, with no argument list; a positional shape always renders its
/// parentheses and a named shape always renders its braces, even when empty.
pub open spec fn pattern_text(p: PatternSuggestion) -> Seq<char> {
    match p {
        PatternSuggestion::Wildcard => "_"@,
        PatternSuggestion::Binder(n) => n@,
        PatternSuggestion::Value(v) => v@,
        PatternSuggestion::UnpackPositionalStruct { module, name, field_count } => module@ + "::"@
            + name@ + "("@ + wildcards(field_count as nat) + ")"@,
        PatternSuggestion::UnpackNamedStruct { module, name, fields } => module@ + "::"@ + name@
            + " { "@ + join_seqs(fields.deep_view(), " , "@) + " }"@,
        PatternSuggestion::UnpackEmptyVariant { module, enum_name, variant_name } => module@ + "::"@
            + enum_name@ + "::"@ + variant_name@,
        PatternSuggestion::UnpackPositionalVariant {
            module,
            enum_name,
            variant_name,
            field_count,
        } => module@ + "::"@ + enum_name@ + "::"@ + variant_name@ + "("@ + wildcards(
            field_count as nat,
        ) + ")"@,
        PatternSuggestion::UnpackNamedVariant { module, enum_name, variant_name, fields } => module@
            + "::"@ + enum_name@ + "::"@ + variant_name@ + " { "@ + join_seqs(
            fields.deep_view(),
            " , "@,
        ) + " }"@,
    }
}

/// Build `count` wildcards joined with ", ".
fn wildcard_list(count: usize) -> (r: String)
    ensures
        r@ == wildcards(count as nat),
{
    let mut items: Vec<String> = Vec::new();
    proof {
        assert(items.deep_view() =~= Seq::new(0, |i: int| "_"@));
    }
    let mut k: usize = 0;
    while k < count
        invariant
            k <= count,
            items@.len() == k,
            forall|i: int| 0 <= i < k ==> (#[trigger] items@[i])@ == "_"@,
        decreases count - k,
    {
        items.push(String::from_str("_"));
        k += 1;
    }
    proof {
        assert forall|i: int| 0 <= i < count implies items.deep_view()[i] == "_"@ by {
            assert(items@[i]@ == "_"@);
        }
        assert(items.deep_view() =~= Seq::new(count as nat, |i: int| "_"@));
    }
    crate::text::join_strings(&items, ", ")
}

impl PatternSuggestion {
    /// Render this suggestion as pattern text.
    pub fn render(&self) -> (r: String)
        ensures
            r@ == pattern_text(*self),
    {
        match self {
            PatternSuggestion::Wildcard => String::from_str("_"),
            PatternSuggestion::Binder(n) => n.clone(),
            PatternSuggestion::Value(v) => v.clone(),
            PatternSuggestion::UnpackPositionalStruct { module, name, field_count } => {
                let mut r = module.clone();
                r.append("::");
                r.append(name.as_str());
                r.append("(");
                let w = wildcard_list(*field_count);
                r.append(w.as_str());
                r.append(")");
                r
            },
            PatternSuggestion::UnpackNamedStruct { module, name, fields } => {
                let mut r = module.clone();
                r.append("::");
                r.append(name.as_str());
                r.append(" { ");
                let fs = crate::text::join_strings(fields, " , ");
                r.append(fs.as_str());
                r.append(" }");
                r
            },
            PatternSuggestion::UnpackEmptyVariant { module, enum_name, variant_name } => {
                let mut r = module.clone();
                r.append("::");
                r.append(enum_name.as_str());
                r.append("::");
                r.append(variant_name.as_str());
                r
            },
            PatternSuggestion::UnpackPositionalVariant {
                module,
                enum_name,
                variant_name,
                field_count,
            } => {
                let mut r = module.clone();
                r.append("::");
                r.append(enum_name.as_str());
                r.append("::");
                r.append(variant_name.as_str());
                r.append("(");
                let w = wildcard_list(*field_count);
                r.append(w.as_str());
                r.append(")");
                r
            },
            PatternSuggestion::UnpackNamedVariant { module, enum_name, variant_name, fields } => {
                let mut r = module.clone();
                r.append("::");
                r.append(enum_name.as_str());
                r.append("::");
                r.append(variant_name.as_str());
                r.append(" { ");
                let fs = crate::text::join_strings(fields, " , ");
                r.append(fs.as_str());
                r.append(" }");
                r
            },
        }
    }
}

/// The delimiter asymmetry of suggestion shapes, stated once for every
/// module, type, variant and field list: an empty variant renders as the bare
/// tag path and nothing more, while a positional shape with zero fields still
/// renders `()` and a named shape with no fields still renders its braces.
pub proof fn lemma_pattern_shapes(
    module: String,
    name: String,
    enum_name: String,
    variant_name: String,
    fields: Vec<String>,
)
    ensures
        pattern_text(
            PatternSuggestion::UnpackEmptyVariant { module, enum_name, variant_name },
        ) == module@ + "::"@ + enum_name@ + "::"@ + variant_name@,
        pattern_text(
            PatternSuggestion::UnpackPositionalVariant {
                module,
                enum_name,
                variant_name,
                field_count: 0,
            },
        ) == module@ + "::"@ + enum_name@ + "::"@ + variant_name@ + "("@ + ")"@,
        pattern_text(
            PatternSuggestion::UnpackPositionalStruct { module, name, field_count: 0 },
        ) == module@ + "::"@ + name@ + "("@ + ")"@,
        fields@.len() == 0 ==> pattern_text(
            PatternSuggestion::UnpackNamedStruct { module, name, fields },
        ) == module@ + "::"@ + name@ + " { "@ + " }"@,
        fields@.len() == 0 ==> pattern_text(
            PatternSuggestion::UnpackNamedVariant { module, enum_name, variant_name, fields },
        ) == module@ + "::"@ + enum_name@ + "::"@ + variant_name@ + " { "@ + " }"@,
{
    assert(Seq::new(0, |i: int| "_"@) =~= Seq::<Seq<char>>::empty());
    assert(wildcards(0) == Seq::<char>::empty());
    assert(module@ + "::"@ + enum_name@ + "::"@ + variant_name@ + "("@ + Seq::<char>::empty()
        =~= module@ + "::"@ + enum_name@ + "::"@ + variant_name@ + "("@);
    assert(module@ + "::"@ + name@ + "("@ + Seq::<char>::empty() =~= module@ + "::"@ + name@
        + "("@);
    if fields@.len() == 0 {
        assert(fields.deep_view() =~= Seq::<Seq<char>>::empty());
        assert(module@ + "::"@ + name@ + " { "@ + Seq::<char>::empty() =~= module@ + "::"@ + name@
            + " { "@);
        assert(module@ + "::"@ + enum_name@ + "::"@ + variant_name@ + " { "@
            + Seq::<char>::empty() =~= module@ + "::"@ + enum_name@ + "::"@ + variant_name@
            + " { "@);
    }
}

} // verus!
