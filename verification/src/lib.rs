//! Verified core of an R language server: folding ranges of R documents
//! (brackets that span lines, comment sections, `# region` blocks and code
//! cells), the text and pattern handling they need, the syntax-node factory's
//! slot layouts, and the decisions of the server's event loops.

pub mod folding_range;
pub mod main_loop;
pub mod node_factory;
pub mod patterns;
pub mod prefix;
pub mod syntax_tree;
pub mod text;
