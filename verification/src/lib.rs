//! Markdown lint rules over a line-and-node model of a document.
pub mod text;
pub mod config;
pub mod document;
pub mod violation;
pub mod atx;
pub mod lines;
pub mod fences;
pub mod nodes;
pub mod md002;
pub mod md003;
pub mod md004;
pub mod md005;
pub mod md006;
pub mod md007;
pub mod md009;
pub mod md010;
pub mod md011;
pub mod md012;
pub mod md013;
pub mod md014;
pub mod md015;
pub mod md016;
pub mod md017;
pub mod md019;
pub mod md020;
pub mod md022;
pub mod md023;
pub mod md024;
pub mod md025;
pub mod md026;
pub mod md027;
pub mod md031;
pub mod md032;
pub mod md033;
pub mod md034;
pub mod md035;
pub mod md036;
pub mod md037;
pub mod md038;
pub mod md039;
pub mod md040;
pub mod md043;
pub mod md046;
pub mod md048;
pub mod md049;
pub mod md050;
pub mod md051;
pub mod md052;
