use vstd::prelude::*;

use super::System;
use crate::entities::EntityManager;

verus! {

/// Placeholder for picking items up: it inspects the store but changes
/// nothing yet.
#[derive(Debug)]
pub struct PickupSystem;

impl System for PickupSystem {
    open spec fn mounted(&self, after: &Self, pre: &EntityManager, post: &EntityManager) -> bool {
        *post == *pre
    }

    open spec fn unmounted(&self, after: &Self, pre: &EntityManager, post: &EntityManager) -> bool {
        *post == *pre
    }

    fn mount(&mut self, em: &mut EntityManager) {
    }

    fn unmount(&mut self, em: &mut EntityManager) {
    }

    open spec fn processed(&self, after: &Self, pre: &EntityManager, post: &EntityManager) -> bool {
        *post == *pre
    }

    fn process(&mut self, em: &mut EntityManager) {
    }
}

} // verus!
