//! What authors of apps build on: the values that cross the boundary of the
//! sandbox, and the rules for the attributes of an app's functions.

pub mod attr;
pub mod function;
pub mod value;
