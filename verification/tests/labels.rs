use leben_asm::assembler::labels::{Label, LabelLookup};

fn label(name: &[u8]) -> Label {
    Label { span: name.to_vec() }
}

#[test]
fn lookup_finds_what_insert_recorded() {
    let mut table = LabelLookup::new();
    assert_eq!(table.insert(label(b"START"), 0x100), Ok(()));
    assert_eq!(table.insert(label(b"LOOP"), 0x103), Ok(()));
    assert_eq!(table.lookup(label(b"START")).map(|a| a.value()), Some(0x100));
    assert_eq!(table.lookup(label(b"LOOP")).map(|a| a.value()), Some(0x103));
    assert_eq!(table.lookup(label(b"MISSING")), None);
}

#[test]
fn labels_compare_by_exact_bytes() {
    let mut table = LabelLookup::new();
    table.insert(label(b"A1"), 1).unwrap();
    assert_eq!(table.lookup(label(b"A")), None);
    assert_eq!(table.lookup(label(b"A11")), None);
    assert_eq!(table.lookup(label(b"A1")).map(|a| a.value()), Some(1));
}

#[test]
fn redefinition_fails_and_keeps_the_first_entry() {
    let mut table = LabelLookup::new();
    table.insert(label(b"HERE"), 7).unwrap();
    assert_eq!(table.insert(label(b"HERE"), 9), Err(()));
    assert_eq!(table.lookup(label(b"HERE")).map(|a| a.value()), Some(7));
}
