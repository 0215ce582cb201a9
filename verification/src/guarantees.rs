//! What holds of every parse: what a list of declarations makes of a schema,
//! which argument lists the tokenizer accepts and which error it gives for
//! the others, that the builder accepts what the tokenizer gives, and how
//! the collection reflects the flags that were given.
pub mod acceptance;
pub mod contents;
pub mod declarations;
pub mod pairing;
