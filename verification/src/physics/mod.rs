pub mod cosmic_body;
