//! Core logic of a vocabulary drill: sentence blanking, answer evaluation,
//! and the quiz session state machine. Fetching records and rendering are
//! left to the surrounding application; this crate holds the verified rules.

pub mod blank;
pub mod evaluate;
pub mod record;
pub mod session;

pub use blank::blank;
pub use blank::blanked_sentence;
pub use evaluate::is_correct;
pub use record::Prompt;
pub use record::WordRecord;
pub use session::LastResult;
pub use session::Session;
pub use session::prompt_at;
