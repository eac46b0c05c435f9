pub mod ids;
pub mod doctree;
pub mod definitions;
pub mod text;
pub mod linker;
pub mod href;
pub mod page;
pub mod corpus;
pub mod buffer;
pub mod render;
pub mod context;
pub mod rendered;
pub mod pipeline;
pub mod archive;
pub mod frontmatter;
pub mod markdown;
pub mod processors;
