use stackparam::descriptor::parameter_types;
use stackparam::inspector::{
    apply_local_var_table, capture_depth, check_capture_args, fill_depth, get_method_param_info,
    param_info_index, params_to_cells, plan_reads, should_attach_params, skip_frames, trim_head,
    value_kind, ArgumentError, Cell, InspectError, LocalVariableEntry, MethodInfo, Param, SlotRead,
    ValueKind, NATIVE_FLAG, STATIC_FLAG,
};

fn b(s: &str) -> Vec<u8> {
    s.as_bytes().to_vec()
}

fn layout(info: &MethodInfo) -> Vec<(String, String, usize)> {
    info.params
        .iter()
        .map(|p| (String::from_utf8(p.name.clone()).unwrap(), String::from_utf8(p.typ.clone()).unwrap(), p.slot))
        .collect()
}

fn types_and_slots(desc: &str) -> Vec<(String, usize)> {
    let info = get_method_param_info(STATIC_FLAG, &b(desc), &b("LC;")).unwrap();
    layout(&info).into_iter().map(|(_, t, s)| (t, s)).collect()
}

fn ts(v: &[(&str, usize)]) -> Vec<(String, usize)> {
    v.iter().map(|(t, s)| (t.to_string(), *s)).collect()
}

#[test]
fn curated_descriptors() {
    assert_eq!(types_and_slots("()V"), ts(&[]));
    assert_eq!(types_and_slots("(I)I"), ts(&[("I", 0)]));
    assert_eq!(types_and_slots("(IJI)V"), ts(&[("I", 0), ("J", 1), ("I", 3)]));
    assert_eq!(types_and_slots("(DDD)D"), ts(&[("D", 0), ("D", 2), ("D", 4)]));
    assert_eq!(types_and_slots("([[Ljava/lang/String;I)[B"), ts(&[("[[Ljava/lang/String;", 0), ("I", 1)]));
    assert_eq!(types_and_slots("(Lx/Y;Lz/W;)V"), ts(&[("Lx/Y;", 0), ("Lz/W;", 1)]));
}

#[test]
fn malformed_descriptors() {
    for d in ["", "I)V", "(Q)V", "(I", "(Ljava/lang/String", "([)V"] {
        assert!(parameter_types(&b(d)).is_none(), "{}", d);
        assert_eq!(get_method_param_info(STATIC_FLAG, &b(d), &b("LC;")).unwrap_err(), InspectError::BadDescriptor);
    }
}

#[test]
fn static_method_capture_layout() {
    let info = get_method_param_info(STATIC_FLAG, &b("(ILjava/lang/Object;)V"), &b("LC;")).unwrap();
    assert_eq!(
        layout(&info),
        vec![("arg0".to_string(), "I".to_string(), 0), ("arg1".to_string(), "Ljava/lang/Object;".to_string(), 1)]
    );
    assert!(info.params.iter().all(|p| p.value.is_none()));
    let plan = plan_reads(&info, false, true);
    assert_eq!(plan, vec![SlotRead::Local(ValueKind::Int, 0), SlotRead::Local(ValueKind::Reference, 1)]);
}

#[test]
fn instance_method_has_receiver_and_wide_slots() {
    let info = get_method_param_info(0, &b("(JI)V"), &b("Lp/Q;")).unwrap();
    assert_eq!(
        layout(&info),
        vec![
            ("this".to_string(), "Lp/Q;".to_string(), 0),
            ("arg0".to_string(), "J".to_string(), 1),
            ("arg1".to_string(), "I".to_string(), 3),
        ]
    );
    let plan = plan_reads(&info, false, true);
    assert_eq!(plan, vec![SlotRead::Receiver, SlotRead::Local(ValueKind::Long, 1), SlotRead::Local(ValueKind::Int, 3)]);
}

#[test]
fn many_parameters_get_decimal_names() {
    let desc = format!("({})V", "I".repeat(12));
    let info = get_method_param_info(STATIC_FLAG, &b(&desc), &b("LC;")).unwrap();
    assert_eq!(info.params[11].name, b("arg11"));
    assert_eq!(info.params[11].slot, 11);
}

#[test]
fn native_frame_reads_nothing() {
    let info = get_method_param_info(NATIVE_FLAG, &b("(IZ)V"), &b("LC;")).unwrap();
    assert_eq!(layout(&info)[0].0, "this");
    assert_eq!(layout(&info)[1].0, "arg0");
    assert_eq!(layout(&info)[2].0, "arg1");
    assert_eq!(plan_reads(&info, true, true), vec![SlotRead::Absent; 3]);
}

fn entry(name: &str, sig: &str, slot: usize, start: i64) -> LocalVariableEntry {
    LocalVariableEntry { start_location: start, name: b(name), signature: b(sig), slot }
}

#[test]
fn debug_table_names_parameters() {
    let mut info = get_method_param_info(0, &b("(ILjava/lang/String;)V"), &b("LC;")).unwrap();
    let table = vec![entry("this", "LC;", 0, 0), entry("count", "I", 1, 0), entry("label", "Ljava/lang/String;", 2, 0), entry("tmp", "I", 3, 4)];
    apply_local_var_table(&mut info, &table).unwrap();
    let names: Vec<String> = layout(&info).into_iter().map(|x| x.0).collect();
    assert_eq!(names, vec!["this", "count", "label"]);
}

#[test]
fn debug_table_mismatch_leaves_frame_and_reads_nothing() {
    let mut info = get_method_param_info(STATIC_FLAG, &b("(I)V"), &b("LC;")).unwrap();
    let table = vec![entry("x", "J", 0, 0)];
    assert_eq!(apply_local_var_table(&mut info, &table), Err(InspectError::DebugTableMismatch));
    assert_eq!(layout(&info), vec![("arg0".to_string(), "I".to_string(), 0)]);
    assert_eq!(plan_reads(&info, false, false), vec![SlotRead::Absent]);
    let mut info = get_method_param_info(STATIC_FLAG, &b("(I)V"), &b("LC;")).unwrap();
    assert_eq!(apply_local_var_table(&mut info, &vec![entry("x", "I", 0, 3)]), Err(InspectError::DebugTableMismatch));
}

#[test]
fn value_kinds() {
    assert_eq!(value_kind(&b("Z")), Some(ValueKind::Boolean));
    assert_eq!(value_kind(&b("C")), Some(ValueKind::Char));
    assert_eq!(value_kind(&b("F")), Some(ValueKind::Float));
    assert_eq!(value_kind(&b("D")), Some(ValueKind::Double));
    assert_eq!(value_kind(&b("[I")), Some(ValueKind::Reference));
    assert_eq!(value_kind(&b("Lx;")), Some(ValueKind::Reference));
    assert_eq!(value_kind(&b("V")), None);
}

#[test]
fn capture_cells_are_triples() {
    let info = MethodInfo {
        mods: 0,
        params: vec![
            Param { name: b("this"), typ: b("LC;"), slot: 0, value: Some(7) },
            Param { name: b("arg0"), typ: b("I"), slot: 1, value: None },
        ],
    };
    let cells = params_to_cells(&info);
    assert_eq!(cells.len(), 6);
    assert!(matches!(&cells[0], Cell::Text(t) if t == &b("this")));
    assert!(matches!(&cells[1], Cell::Text(t) if t == &b("LC;")));
    assert!(matches!(&cells[2], Cell::Value(7)));
    assert!(matches!(&cells[3], Cell::Text(t) if t == &b("arg0")));
    assert!(matches!(&cells[4], Cell::Text(t) if t == &b("I")));
    assert!(matches!(&cells[5], Cell::Unknown));
}

#[test]
fn capture_arguments_are_checked() {
    assert_eq!(check_capture_args(false, -1), Err(ArgumentError::BadArg));
    assert_eq!(check_capture_args(true, 5), Err(ArgumentError::NullArg));
    assert_eq!(check_capture_args(false, 5), Ok(()));
}

#[test]
fn fill_depths() {
    assert_eq!(fill_depth(0), 3000);
    assert_eq!(fill_depth(12), 12);
    assert_eq!(capture_depth(12), 22);
    assert_eq!(skip_frames(vec![1, 2, 3, 4, 5], 2), vec![3, 4, 5]);
    assert_eq!(skip_frames(vec![1], 2), Vec::<i32>::new());
    assert_eq!(trim_head(vec![1, 2, 3, 4, 5], 3), vec![3, 4, 5]);
    assert_eq!(trim_head(vec![1, 2], 3), vec![1, 2]);
}

#[test]
fn trace_accessor_decisions() {
    assert!(should_attach_params(false, false, 3));
    assert!(!should_attach_params(true, false, 3));
    assert!(!should_attach_params(false, true, 3));
    assert!(!should_attach_params(false, false, 0));
    assert_eq!(param_info_index(1, 3), Some(1));
    assert_eq!(param_info_index(3, 3), None);
}

#[test]
fn depth_three_stack_gives_three_frames() {
    let frames: Vec<MethodInfo> = vec![
        get_method_param_info(STATIC_FLAG, &b("(I)V"), &b("LC;")).unwrap(),
        get_method_param_info(0, &b("()V"), &b("LC;")).unwrap(),
        get_method_param_info(STATIC_FLAG, &b("([Ljava/lang/String;)V"), &b("LC;")).unwrap(),
    ];
    let frames = skip_frames(frames, 0);
    assert_eq!(frames.len(), 3);
    for f in &frames {
        let cells = params_to_cells(f);
        assert_eq!(cells.len(), 3 * f.params.len());
        for k in 0..f.params.len() {
            assert!(matches!(&cells[3 * k + 2], Cell::Unknown));
        }
    }
}
