use anthem::command_line::files::{classify, FileKind, Files, SpecificationSource};

fn files(names: &[&str]) -> Files {
    let mut files = Files::empty();
    for name in names {
        files.add(format!("dir/{name}"), name);
    }
    files
}

#[test]
fn classify_by_ending() {
    assert_eq!(classify("a.lp"), FileKind::Program);
    assert_eq!(classify("a.help.spec"), FileKind::ProofOutline);
    assert_eq!(classify("a.spec"), FileKind::Specification);
    assert_eq!(classify("a.ug"), FileKind::UserGuide);
    assert_eq!(classify("a.txt"), FileKind::Other);
    assert_eq!(classify("lp"), FileKind::Other);
    assert_eq!(classify(".lp"), FileKind::Program);
}

#[test]
fn files_for_external_equivalence() {
    let f = files(&["p.lp", "s.spec", "u.ug", "o.help.spec", "notes.md"]);
    assert_eq!(f.specification(), Some(SpecificationSource::Specification(&"dir/s.spec".to_string())));
    assert_eq!(f.program(), Some(&"dir/p.lp".to_string()));
    assert_eq!(f.user_guide(), Some(&"dir/u.ug".to_string()));
    assert_eq!(f.proof_outline(), Some(&"dir/o.help.spec".to_string()));
    assert_eq!(f.other, vec!["dir/notes.md".to_string()]);
}

#[test]
fn files_for_two_programs() {
    let f = files(&["a.lp", "b.lp"]);
    assert_eq!(f.left(), Some(&"dir/a.lp".to_string()));
    assert_eq!(f.right(), Some(&"dir/b.lp".to_string()));
    assert_eq!(f.specification(), Some(SpecificationSource::Program(&"dir/a.lp".to_string())));
    assert_eq!(f.program(), Some(&"dir/b.lp".to_string()));
    assert_eq!(f.user_guide(), None);
    let empty = Files::empty();
    assert_eq!(empty.left(), None);
    assert_eq!(empty.specification(), None);
    assert_eq!(empty.program(), None);
}
