use linalg::molecules::Element;
use linalg::molecules::Molecule;

#[test]
fn new_molecule_is_empty() {
    let m = Molecule::new();

    assert_eq!(m.0.len(), 0);
}

#[test]
fn sodium_and_chlorine_differ() {
    let mut chlorine = Molecule::new();
    chlorine.0.insert(Element::Cl, 2);

    let mut sodium = Molecule::new();
    sodium.0.insert(Element::Na, 1);

    assert_ne!(chlorine, sodium);
}
