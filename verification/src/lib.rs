use vstd::prelude::*;

pub mod admission;
pub mod batch;
pub mod links;
pub mod outcome;
pub mod progress;
pub mod request;
pub mod source;

pub use admission::Admission;
pub use admission::DEFAULT_LANES;
pub use batch::Batch;
pub use batch::lemma_done_one_result_each;
pub use batch::lemma_in_flight_bounded;
pub use batch::resolved_count;
pub use links::Link;
pub use links::LinkView;
pub use links::contains_link;
pub use links::dedup_links;
pub use links::filter_present;
pub use links::link_views;
pub use links::pair_links;
pub use outcome::SetupError;
pub use outcome::TransferError;
pub use outcome::TransferOutcome;
pub use outcome::setup_exit_code;
pub use progress::TransferProgress;
pub use progress::lemma_stream_accounting;
pub use progress::sum_of_chunks;
pub use request::user_agent;
pub use request::user_agent_header;
pub use source::collect_links;
pub use source::href_attr;
pub use source::listed_links;
pub use source::name_selector;
pub use source::url_selector;

