//! The lighting modes of the device, used as type parameters.
use vstd::prelude::*;

verus! {

/// Uninitialized mode.
#[derive(Debug)]
pub struct UninitializedMode;

/// Three LEDs mode.
#[derive(Debug)]
pub struct ThreeLedsMode;

/// Two LEDs mode.
#[derive(Debug)]
pub struct TwoLedsMode;

/// Represents the lighting mode of the device.
pub trait LedMode {}

impl LedMode for UninitializedMode {}

impl LedMode for ThreeLedsMode {}

impl LedMode for TwoLedsMode {}

} // verus!
