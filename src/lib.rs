pub mod document;
pub mod html_tree;
pub mod text;
pub mod html_parse;
pub mod provider;
pub mod article;
pub mod comment;
pub mod hub;
pub mod widgets;
pub mod client;
pub mod loading;
