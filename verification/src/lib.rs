//! A terminal feed reader's core: aggregation of syndicated items into one
//! chronologically ordered list, a navigation state machine with a scroll
//! offset, and a mapper from semantic text annotations to terminal styles.

pub mod digits;
pub mod feed;
pub mod html;
pub mod state;
