pub mod arbitrary;
pub mod background;
pub mod builder;
pub mod columns;
pub mod error;
pub mod instance;
pub mod object;
pub mod justify;
pub mod laws;
pub mod text;

pub use arbitrary::{ArbitraryValue, CssUnit, LengthUnit, TailwindArbitrary};
pub use background::TailwindBackgroundAttachment;
pub use builder::{TailwindBuilder, TailwindInstruction};
pub use columns::Columns;
pub use error::TailwindError;
pub use instance::TailwindInstance;
pub use justify::TailwindJustifySelf;
pub use object::TailwindObject;
