//! Configuration choices of the models: activation functions, the kind of
//! task a radial-basis-function network is built for, and how it is trained.

use vstd::prelude::*;
use crate::text::same_text;

verus! {

/// Activation applied to the output of a perceptron.
#[derive(Clone, Copy, Debug, PartialEq, Eq, Structural)]
pub enum ActivationFn {
    Sign,
    Tanh,
    Linear,
}

/// The activation selected by a numeric code: 1 selects `Tanh`, 2 selects
/// `Sign`, and any other code falls back to `Sign`.
pub open spec fn activation_of_code(code: i32) -> ActivationFn {
    if code == 1 {
        ActivationFn::Tanh
    } else {
        ActivationFn::Sign
    }
}

/// The activation selected by a numeric code (see `activation_of_code`).
pub fn activation_from_code(code: i32) -> (activation: ActivationFn)
    ensures
        activation == activation_of_code(code),
{
    match code {
        1 => ActivationFn::Tanh,
        2 => ActivationFn::Sign,
        _ => ActivationFn::Sign,
    }
}

/// Activation applied to a trained linear model's output when it is scored.
#[derive(Clone, Copy, Debug, PartialEq, Eq, Structural)]
pub enum OutputActivation {
    Identity,
    Tanh,
    Sigmoid,
}

/// The activation named by a variant: `"tanh"`, `"sigmoid"`, or anything
/// else for none.
pub open spec fn output_activation_of_name(name: Seq<char>) -> OutputActivation {
    if name == seq!['t', 'a', 'n', 'h'] {
        OutputActivation::Tanh
    } else if name == seq!['s', 'i', 'g', 'm', 'o', 'i', 'd'] {
        OutputActivation::Sigmoid
    } else {
        OutputActivation::Identity
    }
}

/// The activation named by a variant (see `output_activation_of_name`).
pub fn output_activation_from_name(name: &str) -> (activation: OutputActivation)
    ensures
        activation == output_activation_of_name(name@),
{
    proof {
        reveal_strlit("tanh");
        reveal_strlit("sigmoid");
        assert("tanh"@ =~= seq!['t', 'a', 'n', 'h']);
        assert("sigmoid"@ =~= seq!['s', 'i', 'g', 'm', 'o', 'i', 'd']);
    }
    if same_text(name, "tanh") {
        OutputActivation::Tanh
    } else if same_text(name, "sigmoid") {
        OutputActivation::Sigmoid
    } else {
        OutputActivation::Identity
    }
}

/// Code 1 selects `Tanh`; every other code selects `Sign`; no code selects
/// `Linear`.
pub proof fn lemma_activation_codes(code: i32)
    ensures
        activation_of_code(code) == ActivationFn::Tanh <==> code == 1,
        activation_of_code(code) == ActivationFn::Sign <==> code != 1,
        activation_of_code(code) != ActivationFn::Linear,
{
}

/// Only the exact names `tanh` and `sigmoid` select an activation: `tanh`
/// selects `Tanh`, `sigmoid` selects `Sigmoid`, and every other name (such as
/// `sig`, `sign` or `Tanh`) selects none.
pub proof fn lemma_output_activation_names(name: Seq<char>)
    ensures
        output_activation_of_name(name) == OutputActivation::Tanh <==> name == seq!['t', 'a', 'n', 'h'],
        output_activation_of_name(name) == OutputActivation::Sigmoid <==> name == seq![
            's',
            'i',
            'g',
            'm',
            'o',
            'i',
            'd',
        ],
        output_activation_of_name(name) == OutputActivation::Identity <==> (name != seq!['t', 'a', 'n', 'h']
            && name != seq!['s', 'i', 'g', 'm', 'o', 'i', 'd']),
        output_activation_of_name(seq!['s', 'i', 'g', 'n']) == OutputActivation::Identity,
        output_activation_of_name(seq!['s', 'i', 'g']) == OutputActivation::Identity,
{
    assert(seq!['t', 'a', 'n', 'h'] != seq!['s', 'i', 'g', 'm', 'o', 'i', 'd']);
    assert(seq!['s', 'i', 'g', 'n'] != seq!['t', 'a', 'n', 'h']);
    assert(seq!['s', 'i', 'g', 'n'] != seq!['s', 'i', 'g', 'm', 'o', 'i', 'd']);
    assert(seq!['s', 'i', 'g'].len() == 3);
    assert(seq!['s', 'i', 'g', 'm', 'o', 'i', 'd'].len() == 7);
    assert(seq!['t', 'a', 'n', 'h'].len() == 4);
    assert(seq!['s', 'i', 'g'] != seq!['t', 'a', 'n', 'h']);
    assert(seq!['s', 'i', 'g'] != seq!['s', 'i', 'g', 'm', 'o', 'i', 'd']);
}

/// Task of a radial-basis-function network.
#[derive(Clone, Copy, Debug, PartialEq, Eq, Structural)]
pub enum RBFMode {
    Regression,
    BinaryClassification,
    MultiClassification(usize),
}

impl RBFMode {
    /// Whether the network is fitted in closed form (regression and binary
    /// classification) rather than by gradient descent (several classes).
    pub fn uses_closed_form(&self) -> (closed_form: bool)
        ensures
            closed_form == !(*self is MultiClassification),
    {
        match self {
            RBFMode::Regression => true,
            RBFMode::BinaryClassification => true,
            RBFMode::MultiClassification(_) => false,
        }
    }

    /// Number of outputs trained by gradient descent: the number of classes,
    /// or `None` for a task that gradient descent does not train.
    pub fn class_count(&self) -> (count: Option<usize>)
        ensures
            match *self {
                RBFMode::MultiClassification(k) => count == Some(k),
                _ => count is None,
            },
    {
        match self {
            RBFMode::MultiClassification(k) => Some(*k),
            _ => None,
        }
    }
}

} // verus!
