use signai::models::{activation_from_code, output_activation_from_name, ActivationFn, OutputActivation, RBFMode};
use signai::one_vs_all::{class_membership, unique_labels, OneVsAllPseudoInverse};
use signai::reshape::{rows, rows_exact};

#[test]
fn activation_codes_select_tanh_or_sign() {
    assert_eq!(activation_from_code(1), ActivationFn::Tanh);
    assert_eq!(activation_from_code(2), ActivationFn::Sign);
    assert_eq!(activation_from_code(0), ActivationFn::Sign);
    assert_eq!(activation_from_code(3), ActivationFn::Sign);
    assert_eq!(activation_from_code(-1), ActivationFn::Sign);
}

#[test]
fn variant_names_select_output_activation() {
    assert_eq!(output_activation_from_name("tanh"), OutputActivation::Tanh);
    assert_eq!(output_activation_from_name("sigmoid"), OutputActivation::Sigmoid);
    assert_eq!(output_activation_from_name("linear"), OutputActivation::Identity);
    assert_eq!(output_activation_from_name("Tanh"), OutputActivation::Identity);
    assert_eq!(output_activation_from_name(""), OutputActivation::Identity);
}

#[test]
fn rbf_modes_choose_their_training() {
    assert!(RBFMode::Regression.uses_closed_form());
    assert!(RBFMode::BinaryClassification.uses_closed_form());
    assert!(!RBFMode::MultiClassification(3).uses_closed_form());
    assert_eq!(RBFMode::MultiClassification(3).class_count(), Some(3));
    assert_eq!(RBFMode::Regression.class_count(), None);
    assert_eq!(RBFMode::BinaryClassification.class_count(), None);
}

#[test]
fn membership_marks_the_class_samples() {
    assert_eq!(class_membership(&[0, 2, 1, 2], 2), vec![false, true, false, true]);
    assert_eq!(class_membership(&[0, 2, 1, 2], 5), vec![false, false, false, false]);
    assert_eq!(class_membership(&[], 0), Vec::<bool>::new());
}

#[test]
fn unique_labels_are_sorted_and_deduplicated() {
    assert_eq!(unique_labels(&[3, 1, 3, 2, 1]), vec![1, 2, 3]);
    assert_eq!(unique_labels(&[]), Vec::<usize>::new());
    assert_eq!(unique_labels(&[7, 7, 7]), vec![7]);
    let y = vec![5, 0, 35, 12, 0, 5, 9];
    let mut expected = y.clone();
    expected.sort_unstable();
    expected.dedup();
    assert_eq!(unique_labels(&y), expected);
}

#[test]
fn each_sample_is_positive_for_exactly_one_class() {
    let y = vec![4, 1, 4, 0, 2, 1];
    let labels = unique_labels(&y);
    let masks: Vec<Vec<bool>> = labels.iter().map(|&l| class_membership(&y, l)).collect();
    for i in 0..y.len() {
        assert_eq!(masks.iter().filter(|m| m[i]).count(), 1);
    }
}

#[test]
fn rows_keep_the_remainder() {
    let flat = [1, 2, 3, 4, 5, 6, 7];
    assert_eq!(rows(&flat, 3), vec![vec![1, 2, 3], vec![4, 5, 6], vec![7]]);
    assert_eq!(rows(&flat, 7), vec![flat.to_vec()]);
    assert_eq!(rows::<i32>(&[], 4), Vec::<Vec<i32>>::new());
    let expected: Vec<Vec<i32>> = flat.chunks(2).map(|c| c.to_vec()).collect();
    assert_eq!(rows(&flat, 2), expected);
}

#[test]
fn exact_rows_drop_the_remainder() {
    let flat = [1.0f32, 2.0, 3.0, 4.0, 5.0, 6.0, 7.0];
    assert_eq!(rows_exact(&flat, 3), vec![vec![1.0, 2.0, 3.0], vec![4.0, 5.0, 6.0]]);
    assert_eq!(rows_exact(&flat, 8), Vec::<Vec<f32>>::new());
    let expected: Vec<Vec<f32>> = flat.chunks_exact(2).map(|c| c.to_vec()).collect();
    assert_eq!(rows_exact(&flat, 2), expected);
}

#[test]
fn rows_of_f64_samples() {
    let x = [0.5f64, 1.5, -2.0, 4.0];
    assert_eq!(rows(&x, 2), vec![vec![0.5, 1.5], vec![-2.0, 4.0]]);
}

#[test]
fn pseudo_inverse_one_vs_all_starts_unfitted() {
    let ova: OneVsAllPseudoInverse<Vec<f64>> = OneVsAllPseudoInverse::new(4);
    assert_eq!(ova.n_classes, 4);
    assert_eq!(ova.models.len(), 4);
    assert!(ova.models.iter().all(|m| m.is_none()));
    let empty: OneVsAllPseudoInverse<u8> = OneVsAllPseudoInverse::new(0);
    assert!(empty.models.is_empty());
}
