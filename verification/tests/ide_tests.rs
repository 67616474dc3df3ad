use ide_annotations::alias::AliasAutocompleteInfo;
use ide_annotations::alias::LeadingAccessEntry;
use ide_annotations::alias::MemberEntry;
use ide_annotations::ide::AutocompleteMethod;
use ide_annotations::ide::DotAutocompleteInfo;
use ide_annotations::ide::EllipsisMatchEntries;
use ide_annotations::ide::IDEAnnotation;
use ide_annotations::ide::IDEInfo;
use ide_annotations::ide::MacroCallInfo;
use ide_annotations::ide::MissingMatchArmsInfo;
use ide_annotations::loc::Loc;
use ide_annotations::pattern::PatternSuggestion;
use ide_annotations::render::Diagnostic;
use ide_annotations::render::DiagnosticCode;
use ide_annotations::vm_config::VMConfig;
use ide_annotations::vm_config::VMProfilerConfig;
use ide_annotations::vm_config::VMRuntimeLimitsConfig;

fn s(x: &str) -> String {
    x.to_string()
}

fn macro_call_fact() -> IDEAnnotation {
    IDEAnnotation::MacroCallInfo(Box::new(MacroCallInfo {
        module: s("M"),
        name: s("foo"),
        method_name: Some(s("foo")),
        type_arguments: vec![s("T")],
        by_value_args: vec![s("x")],
    }))
}

#[test]
fn macro_call_rendering() {
    let loc = Loc::new(1, 10, 20);
    let d = Diagnostic::from_annotation(loc, &macro_call_fact());
    assert_eq!(d.code, DiagnosticCode::MacroCallInfo);
    assert_eq!(d.loc, loc);
    assert_eq!(d.message, "Called M::foo");
    assert_eq!(
        d.notes,
        vec![
            s("as method call foo"),
            s("Type arguments: T"),
            s("Subject arg: x"),
        ]
    );
}

#[test]
fn macro_call_without_extras() {
    let loc = Loc::new(1, 0, 1);
    let fact = IDEAnnotation::MacroCallInfo(Box::new(MacroCallInfo {
        module: s("std::macros"),
        name: s("assert_eq"),
        method_name: None,
        type_arguments: vec![],
        by_value_args: vec![],
    }));
    let d = Diagnostic::from_annotation(loc, &fact);
    assert_eq!(d.message, "Called std::macros::assert_eq");
    assert!(d.notes.is_empty());
}

#[test]
fn expanded_lambda_rendering() {
    let loc = Loc::new(0, 3, 4);
    let d = Diagnostic::from_annotation(loc, &IDEAnnotation::ExpandedLambda);
    assert_eq!(d.code, DiagnosticCode::ExpandedLambda);
    assert_eq!(d.message, "expanded lambda");
    assert!(d.notes.is_empty());
}

#[test]
fn missing_none_arm_rendering() {
    let loc = Loc::new(2, 5, 9);
    let fact = IDEAnnotation::MissingMatchArms(Box::new(MissingMatchArmsInfo {
        arms: vec![PatternSuggestion::UnpackEmptyVariant {
            module: s("M"),
            enum_name: s("Opt"),
            variant_name: s("None"),
        }],
    }));
    let d = Diagnostic::from_annotation(loc, &fact);
    assert_eq!(d.code, DiagnosticCode::MissingMatchArms);
    assert_eq!(d.message, "Missing arms: 'M::Opt::None'");
}

#[test]
fn missing_arms_two_suggestions() {
    let loc = Loc::new(2, 5, 9);
    let fact = IDEAnnotation::MissingMatchArms(Box::new(MissingMatchArmsInfo {
        arms: vec![
            PatternSuggestion::UnpackEmptyVariant {
                module: s("M"),
                enum_name: s("Opt"),
                variant_name: s("None"),
            },
            PatternSuggestion::UnpackPositionalVariant {
                module: s("M"),
                enum_name: s("Opt"),
                variant_name: s("Some"),
                field_count: 1,
            },
        ],
    }));
    let d = Diagnostic::from_annotation(loc, &fact);
    assert_eq!(d.message, "Missing arms: 'M::Opt::None' and 'M::Opt::Some(_)'");
}

#[test]
fn pattern_suggestion_shapes() {
    assert_eq!(PatternSuggestion::Wildcard.render(), "_");
    assert_eq!(PatternSuggestion::Binder(s("x")).render(), "x");
    assert_eq!(PatternSuggestion::Value(s("42")).render(), "42");
    let empty_variant = PatternSuggestion::UnpackEmptyVariant {
        module: s("M"),
        enum_name: s("E"),
        variant_name: s("V"),
    };
    assert_eq!(empty_variant.render(), "M::E::V");
    let positional_zero = PatternSuggestion::UnpackPositionalVariant {
        module: s("M"),
        enum_name: s("E"),
        variant_name: s("V"),
        field_count: 0,
    };
    assert_eq!(positional_zero.render(), "M::E::V()");
    let positional_struct = PatternSuggestion::UnpackPositionalStruct {
        module: s("M"),
        name: s("S"),
        field_count: 3,
    };
    assert_eq!(positional_struct.render(), "M::S(_, _, _)");
    let named_empty = PatternSuggestion::UnpackNamedStruct {
        module: s("M"),
        name: s("S"),
        fields: vec![],
    };
    assert_eq!(named_empty.render(), "M::S {  }");
    let named = PatternSuggestion::UnpackNamedVariant {
        module: s("M"),
        enum_name: s("E"),
        variant_name: s("V"),
        fields: vec![s("f1"), s("f2")],
    };
    assert_eq!(named.render(), "M::E::V { f1 , f2 }");
}

fn dot_fact(field_names: &[&str]) -> IDEAnnotation {
    IDEAnnotation::DotAutocompleteInfo(Box::new(DotAutocompleteInfo {
        methods: vec![],
        fields: field_names.iter().map(|n| (s(n), s("u64"))).collect(),
    }))
}

#[test]
fn oxford_list_one_element() {
    let d = Diagnostic::from_annotation(Loc::new(0, 0, 1), &dot_fact(&["a"]));
    assert_eq!(d.message, "Possible dot names: 'a'");
}

#[test]
fn oxford_list_two_elements() {
    let d = Diagnostic::from_annotation(Loc::new(0, 0, 1), &dot_fact(&["a", "b"]));
    assert_eq!(d.message, "Possible dot names: 'a' or 'b'");
}

#[test]
fn oxford_list_three_elements() {
    let d = Diagnostic::from_annotation(Loc::new(0, 0, 1), &dot_fact(&["a", "b", "c"]));
    assert_eq!(d.message, "Possible dot names: 'a', 'b', or 'c'");
}

#[test]
fn dot_names_methods_before_fields() {
    let fact = IDEAnnotation::DotAutocompleteInfo(Box::new(DotAutocompleteInfo {
        methods: vec![AutocompleteMethod::new(s("borrow"), (s("M"), s("borrow_impl")))],
        fields: vec![(s("value"), s("u64"))],
    }));
    let d = Diagnostic::from_annotation(Loc::new(0, 0, 1), &fact);
    assert_eq!(d.message, "Possible dot names: 'M::borrow' or 'value'");
}

#[test]
fn autocomplete_method_new_keeps_parts() {
    let m = AutocompleteMethod::new(s("foo"), (s("M"), s("bar")));
    assert_eq!(m.method_name, "foo");
    assert_eq!(m.target_module, "M");
    assert_eq!(m.target_function_name, "bar");
}

#[test]
fn ellipsis_rendering() {
    let loc = Loc::new(0, 0, 1);
    let pos = IDEAnnotation::EllipsisMatchEntries(Box::new(EllipsisMatchEntries::Positional(
        vec![s("a"), s("b")],
    )));
    let d = Diagnostic::from_annotation(loc, &pos);
    assert_eq!(d.code, DiagnosticCode::EllipsisExpansion);
    assert_eq!(d.message, "Ellipsis expansion: a, b");
    let named = IDEAnnotation::EllipsisMatchEntries(Box::new(EllipsisMatchEntries::Named(vec![
        s("x"),
        s("y"),
    ])));
    let d = Diagnostic::from_annotation(loc, &named);
    assert_eq!(d.message, "Ellipsis expansion: x: _, y: _");
}

#[test]
fn alias_projection_classifies_and_sorts() {
    let table = vec![
        (s("zeta"), LeadingAccessEntry::Module(s("0x2::zeta"))),
        (s("T"), LeadingAccessEntry::TypeParam),
        (s("std"), LeadingAccessEntry::Address(s("0x1"))),
        (s("alpha"), LeadingAccessEntry::Module(s("0x2::alpha"))),
        (s("pair"), LeadingAccessEntry::Member(s("0x2::alpha"), s("pair"))),
        // a true duplicate row, present once in the output
        (s("std"), LeadingAccessEntry::Address(s("0x1"))),
    ];
    let info = AliasAutocompleteInfo::from_leading_access(&table);
    assert_eq!(info.addresses, vec![(s("std"), s("0x1"))]);
    assert_eq!(
        info.modules,
        vec![(s("alpha"), s("0x2::alpha")), (s("zeta"), s("0x2::zeta"))]
    );
    assert_eq!(info.members, vec![(s("pair"), s("0x2::alpha"), s("pair"))]);
    assert_eq!(info.type_params, vec![s("T")]);
}

#[test]
fn member_projection_never_fills_addresses_or_modules() {
    let table = vec![
        (s("U"), MemberEntry::TypeParam),
        (s("item"), MemberEntry::Member(s("0x2::m"), s("item"))),
    ];
    let info = AliasAutocompleteInfo::from_members(&table);
    assert!(info.addresses.is_empty());
    assert!(info.modules.is_empty());
    assert_eq!(info.members, vec![(s("item"), s("0x2::m"), s("item"))]);
    assert_eq!(info.type_params, vec![s("U")]);
}

#[test]
fn empty_snapshot_is_empty() {
    let info = AliasAutocompleteInfo::new();
    assert!(info.addresses.is_empty());
    assert!(info.modules.is_empty());
    assert!(info.members.is_empty());
    assert!(info.type_params.is_empty());
}

#[test]
fn path_autocomplete_rendering_order() {
    let table = vec![
        (s("addr"), LeadingAccessEntry::Address(s("0x42"))),
        (s("mem"), LeadingAccessEntry::Member(s("0x2::m"), s("f"))),
        (s("T"), LeadingAccessEntry::TypeParam),
        (s("modname"), LeadingAccessEntry::Module(s("0x2::m"))),
    ];
    let info = AliasAutocompleteInfo::from_leading_access(&table);
    let fact = IDEAnnotation::PathAutocompleteInfo(Box::new(info));
    let d = Diagnostic::from_annotation(Loc::new(0, 0, 1), &fact);
    assert_eq!(d.code, DiagnosticCode::Autocomplete);
    assert_eq!(
        d.message,
        "Possible in-scope names: 'mem -> 0x2::m::f', 'modname -> 0x2::m', 'addr -> 0x42', or 'T'"
    );
}

#[test]
fn store_preserves_insertion_order() {
    let mut store = IDEInfo::new();
    assert!(store.is_empty());
    store.add_ide_annotation(Loc::new(0, 0, 5), IDEAnnotation::ExpandedLambda);
    store.add_ide_annotation(Loc::new(0, 5, 9), macro_call_fact());
    assert!(!store.is_empty());
    let pairs = store.iter();
    assert_eq!(pairs.len(), 2);
    assert_eq!(pairs[0].0, Loc::new(0, 0, 5));
    assert_eq!(pairs[1].0, Loc::new(0, 5, 9));
    assert!(matches!(pairs[0].1, IDEAnnotation::ExpandedLambda));
    assert!(matches!(pairs[1].1, IDEAnnotation::MacroCallInfo(_)));
}

#[test]
fn store_extend_concatenates() {
    let mut a = IDEInfo::new();
    a.add_ide_annotation(Loc::new(0, 0, 1), IDEAnnotation::ExpandedLambda);
    let mut b = IDEInfo::new();
    b.add_ide_annotation(Loc::new(0, 1, 2), IDEAnnotation::ExpandedLambda);
    b.add_ide_annotation(Loc::new(0, 2, 3), IDEAnnotation::ExpandedLambda);
    a.extend(b);
    let pairs = a.iter();
    assert_eq!(pairs.len(), 3);
    assert_eq!(pairs[0].0, Loc::new(0, 0, 1));
    assert_eq!(pairs[1].0, Loc::new(0, 1, 2));
    assert_eq!(pairs[2].0, Loc::new(0, 2, 3));
}

#[test]
fn identical_runs_leave_identical_stores() {
    let build = || {
        let mut store = IDEInfo::new();
        store.add_ide_annotation(Loc::new(0, 0, 5), macro_call_fact());
        store.add_ide_annotation(Loc::new(0, 5, 9), IDEAnnotation::ExpandedLambda);
        store
    };
    let a = build();
    let b = build();
    let a_pairs = a.iter();
    let b_pairs = b.iter();
    assert_eq!(a_pairs.len(), b_pairs.len());
    for (pa, pb) in a_pairs.iter().zip(b_pairs.iter()) {
        assert_eq!(pa.0, pb.0);
        let da = Diagnostic::from_annotation(pa.0, &pa.1);
        let db = Diagnostic::from_annotation(pb.0, &pb.1);
        assert_eq!(da.message, db.message);
        assert_eq!(da.notes, db.notes);
        assert_eq!(da.code, db.code);
    }
}

#[test]
fn rendering_same_pair_twice_is_identical() {
    let loc = Loc::new(7, 2, 8);
    let fact = macro_call_fact();
    let first = Diagnostic::from_annotation(loc, &fact);
    let second = Diagnostic::from_annotation(loc, &fact);
    assert_eq!(first.message, second.message);
    assert_eq!(first.notes, second.notes);
    assert_eq!(first.code, second.code);
    assert_eq!(first.loc, second.loc);
}

#[test]
fn cursor_filter_half_open_span() {
    let mut store = IDEInfo::new();
    // A fact anchored at a struct field's type token, spanning offsets 5..10.
    store.add_ide_annotation(Loc::new(3, 5, 10), IDEAnnotation::ExpandedLambda);
    store.add_ide_annotation(Loc::new(3, 20, 25), macro_call_fact());
    // Cursor exactly at the span start.
    assert_eq!(store.annotations_containing(3, 5), vec![0]);
    // Last offset inside the span.
    assert_eq!(store.annotations_containing(3, 9), vec![0]);
    // One character past the span's end: no fact covers it.
    assert!(store.annotations_containing(3, 10).is_empty());
    // Other file: nothing.
    assert!(store.annotations_containing(4, 7).is_empty());
    // Second fact found by its own span.
    assert_eq!(store.annotations_containing(3, 20), vec![1]);
}

#[test]
fn cursor_filter_reports_every_covering_fact() {
    let mut store = IDEInfo::new();
    store.add_ide_annotation(Loc::new(0, 0, 100), IDEAnnotation::ExpandedLambda);
    store.add_ide_annotation(Loc::new(0, 40, 60), macro_call_fact());
    store.add_ide_annotation(Loc::new(0, 70, 90), IDEAnnotation::ExpandedLambda);
    assert_eq!(store.annotations_containing(0, 50), vec![0, 1]);
    assert_eq!(store.annotations_containing(0, 65), vec![0]);
}

#[test]
fn loc_containment() {
    let loc = Loc::new(9, 4, 8);
    assert!(loc.contains(9, 4));
    assert!(loc.contains(9, 7));
    assert!(!loc.contains(9, 8));
    assert!(!loc.contains(9, 3));
    assert!(!loc.contains(8, 5));
}

#[test]
fn vm_config_defaults() {
    let c = VMConfig::default();
    assert_eq!(c.max_binary_format_version, ide_annotations::vm_config::VERSION_MAX);
    assert!(c.enable_invariant_violation_check_in_swap_loc);
    assert!(!c.check_no_extraneous_bytes_during_deserialization);
    assert!(c.profiler_config.is_none());
    assert!(c.error_execution_state);
    let limits = c.runtime_limits_config;
    assert_eq!(limits.vector_len_max, 128 * 1024);
    assert_eq!(limits.max_value_nest_depth, Some(128));
    assert!(limits.hardened_otw_check);
}

#[test]
fn runtime_limits_defaults() {
    let limits = VMRuntimeLimitsConfig::default();
    assert_eq!(
        limits.vector_len_max,
        ide_annotations::vm_config::DEFAULT_MAX_CONSTANT_VECTOR_LEN
    );
    assert_eq!(
        limits.max_value_nest_depth,
        Some(ide_annotations::vm_config::DEFAULT_MAX_VALUE_NEST_DEPTH)
    );
}

#[test]
fn profiler_config_gate() {
    let on = VMProfilerConfig::get_default_config_if_enabled(true);
    let c = on.expect("enabled profiling must yield a configuration");
    assert!(c.full_path.is_none());
    assert!(!c.track_bytecode_instructions);
    assert!(!c.use_long_function_name);
    let off = VMProfilerConfig::get_default_config_if_enabled(false);
    assert!(off.is_none());
}

#[test]
fn oxford_list_empty() {
    let d = Diagnostic::from_annotation(Loc::new(0, 0, 1), &dot_fact(&[]));
    assert_eq!(d.message, "Possible dot names: ");
}

#[test]
fn projection_of_empty_table() {
    let info = AliasAutocompleteInfo::from_leading_access(&vec![]);
    assert!(info.addresses.is_empty());
    assert!(info.modules.is_empty());
    assert!(info.members.is_empty());
    assert!(info.type_params.is_empty());
}
