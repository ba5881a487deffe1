use malloc_size_of::derive_plan::{
    field_plan, plan, AttrForm, DeriveError, FieldAttr, FieldInfo, Marker, MeasurePath, Step,
};

fn plain(is_array: bool) -> FieldInfo {
    FieldInfo { attrs: vec![], is_array }
}

fn with_attr(form: AttrForm, marker: Marker) -> FieldInfo {
    FieldInfo { attrs: vec![FieldAttr { form, marker }], is_array: false }
}

#[test]
fn test_struct() {
    // struct Foo<T> { bar: Bar, baz: T, #[ignore_malloc_size_of = ""] z: Arc<T> }
    let fields = vec![
        plain(false),
        plain(false),
        with_attr(AttrForm::NameValue, Marker::Ignore),
    ];
    let steps = plan(&fields).unwrap();
    assert_eq!(steps.len(), 2);
    assert!(steps.iter().all(|s| s.path == MeasurePath::Deep && !s.per_item));
    assert_eq!(steps.iter().filter(|s| s.binding == 2).count(), 0);

    // struct Bar([Baz; 3]);
    let fields = vec![plain(true)];
    let steps = plan(&fields).unwrap();
    assert_eq!(steps.iter().filter(|s| s.per_item).count(), 1);
}

#[test]
#[should_panic(expected = "should have an explanation")]
fn test_no_reason() {
    // struct A { #[ignore_malloc_size_of] b: C }
    let fields = vec![with_attr(AttrForm::Path, Marker::Ignore)];
    if let Err(e) = plan(&fields) {
        panic!("{}", e.message());
    }
}

#[test]
fn ignore_in_list_form_lacks_explanation() {
    let f = with_attr(AttrForm::List, Marker::Ignore);
    assert_eq!(field_plan(&f), Err(DeriveError::MissingExplanation));
}

#[test]
fn ignore_and_conditional_are_incompatible() {
    let f = FieldInfo {
        attrs: vec![
            FieldAttr { form: AttrForm::NameValue, marker: Marker::Ignore },
            FieldAttr { form: AttrForm::Path, marker: Marker::Conditional },
        ],
        is_array: false,
    };
    assert_eq!(field_plan(&f), Err(DeriveError::IgnoreWithConditional));
    assert_eq!(plan(&vec![plain(false), f]), Err(DeriveError::IgnoreWithConditional));
}

#[test]
fn conditional_marker_routes_to_conditional_measurement() {
    for form in [AttrForm::Path, AttrForm::List, AttrForm::NameValue] {
        let f = with_attr(form, Marker::Conditional);
        assert_eq!(field_plan(&f), Ok(Some(MeasurePath::Conditional)));
    }
}

#[test]
fn other_attributes_leave_the_field_measured() {
    let f = FieldInfo {
        attrs: vec![
            FieldAttr { form: AttrForm::Path, marker: Marker::Other },
            FieldAttr { form: AttrForm::List, marker: Marker::Other },
        ],
        is_array: true,
    };
    assert_eq!(field_plan(&f), Ok(Some(MeasurePath::Deep)));
}

#[test]
fn plan_keeps_binding_order_and_array_flags() {
    let fields = vec![
        plain(true),
        with_attr(AttrForm::NameValue, Marker::Ignore),
        with_attr(AttrForm::Path, Marker::Conditional),
        plain(false),
    ];
    let steps = plan(&fields).unwrap();
    assert_eq!(
        steps,
        vec![
            Step { binding: 0, path: MeasurePath::Deep, per_item: true },
            Step { binding: 2, path: MeasurePath::Conditional, per_item: false },
            Step { binding: 3, path: MeasurePath::Deep, per_item: false },
        ]
    );
}

#[test]
fn first_misused_field_decides_the_error() {
    let both = FieldInfo {
        attrs: vec![
            FieldAttr { form: AttrForm::NameValue, marker: Marker::Ignore },
            FieldAttr { form: AttrForm::NameValue, marker: Marker::Conditional },
        ],
        is_array: false,
    };
    let fields = vec![both, with_attr(AttrForm::Path, Marker::Ignore)];
    assert_eq!(plan(&fields), Err(DeriveError::IgnoreWithConditional));
}

#[test]
fn empty_type_plans_no_steps() {
    assert_eq!(plan(&vec![]), Ok(vec![]));
}

#[test]
fn error_messages() {
    assert!(DeriveError::MissingExplanation.message().contains("should have an explanation"));
    assert!(DeriveError::IgnoreWithConditional.message().contains("incompatible"));
}
