//! An index of macro definitions across a graph of template files.
//!
//! Templates may declare macros of their own, import the macros of other
//! templates under a local alias, and inherit from parent templates.  A
//! [`collection::MacroCollection`] is built once, anchored at a root
//! template: construction walks every template reachable through macro
//! imports or inheritance, records for each one a namespace map (alias to
//! origin template and its macros), and afterwards answers point queries
//! by `(template, namespace, macro)` triples without touching the
//! template graph again.

pub mod collection;
pub mod laws;
pub mod strmap;
pub mod template;
