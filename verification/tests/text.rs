use timestampvm::ids::{Id, Pubkey};
use timestampvm::text::{contains_text, decimal_text, join};

#[test]
fn numbers_in_decimal() {
    assert_eq!(decimal_text(0), "0");
    assert_eq!(decimal_text(9), "9");
    assert_eq!(decimal_text(10), "10");
    assert_eq!(decimal_text(1048576), "1048576");
    assert_eq!(decimal_text(usize::MAX), usize::MAX.to_string());
}

#[test]
fn search() {
    assert!(contains_text("not found", "not found"));
    assert!(contains_text("it was not found.", "not found"));
    assert!(!contains_text("not foun", "not found"));
    assert!(!contains_text("nöt found", "not found"));
    assert!(contains_text("ü not found", "not found"));
    assert!(contains_text("", ""));
    assert_eq!(join("a", "b"), "ab");
}

#[test]
fn ids() {
    let mut bytes = [0u8; 32];
    for i in 0..32 {
        bytes[i] = i as u8 + 1;
    }
    let id = Id::from_slice(&bytes);
    assert_eq!(id.show(), "SkB92YpWm4Q2ijQHH34cqbKkCZWszsiQgHVjtNeFF2HdvDQU");
    assert_eq!(id.to_vec(), bytes.to_vec());
    assert_eq!(Id::empty().0, [0; 32]);
    assert!(Pubkey::from_vec(&vec![1; 31]).is_none());
    assert_eq!(Pubkey::from_vec(&vec![1; 32]).unwrap().0, [1; 32]);
    assert!(Pubkey([1; 32]).same(&Pubkey([1; 32])));
    assert!(!Pubkey([1; 32]).same(&Pubkey([2; 32])));
}
