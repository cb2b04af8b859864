//! Verified core of the marksmen document toolkit: text utilities, the
//! Mermaid flowchart lexer and parser, diagram parsers, Marp reading,
//! configuration merging, attribute blocks, mail-merge tags, the CSL
//! citation engine and the citation exporters.

pub mod text;
pub mod config;
pub mod unicode;
pub mod marp;
pub mod attributes;
pub mod mermaid_lexer;
pub mod mermaid_graph;
pub mod mermaid_parser;
pub mod pattern;
pub mod mermaid_source;
pub mod csl;
pub mod csl_engine;
pub mod csl_sort;
pub mod cite;
pub mod cite_format;
pub mod cite_export;
pub mod sync;
pub mod mailmerge;
pub mod cite_import;
pub mod typst_text;
pub mod sequence_diagram;
pub mod diagrams;
pub mod class_diagram;
pub mod er_diagram;
pub mod mindmap;
pub mod markup;
pub mod frontmatter;
pub mod directed_graph;
pub mod cycle_removal;
pub mod rank_assignment;
pub mod csl_citation;
pub mod epub;
pub mod md_events;
pub mod marp_writer;
pub mod attribute_pass;
pub mod combine;
pub mod latex_writer;
pub mod html_writer;
pub mod merge;
pub mod reference_text;
pub mod arxiv;
pub mod web_records;
pub mod omml;
pub mod docx_support;
