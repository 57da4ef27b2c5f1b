//! State, wire format and wording of the Ouroboros terminal client.

pub mod access;
pub mod actions;
pub mod answering;
pub mod answers;
pub mod app;
pub mod catalogue;
pub mod cells;
pub mod clock;
pub mod cluster;
pub mod desktop;
pub mod devices;
pub mod devices_view;
pub mod dialogs;
pub mod embed;
pub mod explorer;
pub mod facts;
pub mod fleet;
pub mod forms;
pub mod gestures;
pub mod home;
pub mod images;
pub mod incoming;
pub mod inventory;
pub mod json;
pub mod keys;
pub mod ledger;
pub mod machines;
pub mod messages;
pub mod model;
pub mod motions;
pub mod outgoing;
pub mod ownership;
pub mod panel;
pub mod panes;
pub mod press;
pub mod readings;
pub mod replies;
pub mod restore;
pub mod roster;
pub mod sessions;
pub mod starts;
pub mod status;
pub mod stream;
pub mod submit;
pub mod subprocess;
pub mod tags;
pub mod text;
pub mod typing;
pub mod watch;
pub mod window;
pub mod wire;
pub mod writable;
