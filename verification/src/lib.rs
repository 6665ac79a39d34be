pub mod addr;
pub mod command;
pub mod config;
pub mod error;
pub mod instruction;
pub mod member;
pub mod pda;
pub mod transaction;

pub use addr::Address;
pub use config::ProgramConfig;
pub use error::{CliError, SubmitReason};
pub use instruction::{AccountMeta, Instruction};
pub use member::{Member, MemberParseError, Permissions};
pub use transaction::TransactionPlan;
