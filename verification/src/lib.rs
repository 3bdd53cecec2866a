//! DataBeam: the logic of a desktop front end for croc and sendme transfers.

pub mod text;
pub mod wide;
pub mod binary64;
pub mod numerals;
pub mod units;
pub mod progress;
pub mod croc;
pub mod readings;
pub mod bars;
pub mod sendme;
pub mod display;
pub mod messages;
pub mod transfer;
pub mod sender;
pub mod reader;
pub mod receiver;
pub mod engines;
pub mod state;
pub mod facts;
pub mod metrics;
pub mod session;
pub mod engine;
pub mod workspace;
pub mod laws;
pub mod flows;
pub mod sequels;
pub mod update;
pub mod panels;
pub mod paths;
pub mod status;
pub mod shown;
pub mod archive;
pub mod surroundings;
pub mod tools;
pub mod desk;
pub mod starts;
pub mod drops;
pub mod tray;
pub mod window;
pub mod pictures;
pub mod settings;
pub mod cleanup;
pub mod home;
pub mod offers;
pub mod installer;
pub mod upkeep;
