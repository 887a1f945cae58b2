//! Bills of materials: hierarchies of assemblies built from flat dependency
//! tables, and the explosion of a hierarchy into total quantities per
//! purchased part.
//!
//! A [`PartCatalog`] names the parts, and a [`Dependencies`] table lists,
//! for each assembly, the parts that one unit of it takes.
//! [`Bom::build_hierarchy`] turns the two into the hierarchy of a root part,
//! in which every assembly has one node that all its parents share.
//! [`Bom::explode_quantities`] multiplies the quantities down the hierarchy
//! and adds them up into [`Totals`]: how much of each purchased part one
//! unit of the root takes.
//!
//! ```
//! use bom_kit::{Bom, Dependencies, Part, PartCatalog, Quantity};
//! use std::collections::HashMap;
//!
//! let mut parts = PartCatalog::new();
//! for id in ["table", "frame", "leg", "screw"] {
//!     parts.insert(Part {
//!         id: id.to_string(),
//!         name: id.to_string(),
//!         description: None,
//!         part_number: None,
//!         manufacturer: None,
//!         attributes: HashMap::new(),
//!     });
//! }
//! let mut deps = Dependencies::new();
//! deps.insert(
//!     "table".to_string(),
//!     vec![("frame".to_string(), Quantity::Units(1)), ("screw".to_string(), Quantity::Units(4))],
//! );
//! deps.insert(
//!     "frame".to_string(),
//!     vec![("leg".to_string(), Quantity::Units(4)), ("screw".to_string(), Quantity::Units(8))],
//! );
//!
//! let table = Bom::build_hierarchy(&deps, &parts, "table".to_string()).unwrap();
//! let totals = table.explode_quantities().unwrap();
//! assert_eq!(totals.get("leg"), Some(4));
//! assert_eq!(totals.get("screw"), Some(12));
//! ```
//!
//! What the functions promise is stated in their contracts and proved. The
//! modules [`defects`], [`hierarchy`] and [`levels`] hold the notions that
//! the contracts of the build use, [`explosion`] those of the explosion, and
//! [`chains`], [`laws`] and [`needs`] what follows from them for every
//! input.

pub mod bom;
pub mod builder;
pub mod chains;
pub mod component;
pub mod decimal;
pub mod defects;
pub mod error;
pub mod explosion;
pub mod hierarchy;
pub mod laws;
pub mod levels;
pub mod needs;
pub mod part;
pub mod quantity;
pub mod substitute;
pub mod tables;
pub mod text;
pub mod totals;

pub use bom::{Bom, BomMetadata};
pub use component::{Component, Sustainability};
pub use decimal::DecimalValue;
pub use error::BomError;
pub use explosion::Tally;
pub use part::{Part, PartId};
pub use quantity::{Quantity, Unit};
pub use substitute::{Substitute, SubstituteRatio};
pub use tables::{Dependencies, Edges, PartCatalog};
pub use totals::Totals;
