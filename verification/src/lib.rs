//! The logic of a practice site for programming exercises in seven languages: the
//! languages and their upstream runners, the problem schema, how a run is judged, the
//! learner's progress, the decisions of the front end, the quality checks of problem
//! content and the planning of container runs that check it.

pub mod api;
pub mod batch;
pub mod console;
pub mod content;
pub mod docker;
pub mod lang;
pub mod language;
pub mod layout;
pub mod md;
pub mod mobile;
pub mod playground;
pub mod problem;
pub mod progress;
pub mod proxy;
pub mod server;
pub mod session;
pub mod storage;
pub mod text;
