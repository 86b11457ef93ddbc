//! Request logic of the peterlits.com home-page server: the like and dislike
//! counters, the routing of API requests, the paging of the comment list and
//! the rule that spaces out comments sent from one address.

pub mod text;
pub mod like;
pub mod route;
pub mod clock;
pub mod comments;
