//! Singly-linked lists with three ownership strategies: an exclusively owned
//! list of `i32`, a generic exclusively owned list with borrowing iterators,
//! and a persistent list whose nodes are shared by reference counting.
pub mod first;
pub mod model;
pub mod second;
pub mod third;
