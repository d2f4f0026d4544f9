//! Lifts of a site: their cabins, the doors on the faces of the cabins, the
//! levels at which the doors can be used, and the anchors that the doors span.
//!
//! The site holds every entity under a handle. What a request, a lost level
//! or a new level does to the site is stated in `model` as a function on the
//! site as a mathematical value; the functions that do the work are proved
//! to do exactly that, and `laws` holds what follows for every site.

pub mod anchor;
pub mod anchor_cues;
pub mod ascending;
pub mod availability;
pub mod cabin;
pub mod cabin_builder;
pub mod door;
pub mod doormat;
pub mod issue;
pub mod laws;
pub mod lift;
pub mod model;
pub mod negotiation;
pub mod order;
pub mod registration;
pub mod site;
pub mod validation;
