pub mod clock;
pub mod digits;
pub mod laws;
pub mod message;
pub mod record;
pub mod value;

pub use message::Level;
pub use message::Type;
pub use record::Config;
pub use record::EventData;
pub use record::JsonFormattingLayer;
pub use record::SpanData;
pub use value::JsonValue;
