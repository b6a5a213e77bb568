//! The pages and API endpoints of the web server: what each one reads out of
//! a fetched page, and how errors are answered.
pub mod errors;
pub mod html;
pub mod route_dashboard;
pub mod route_index;
pub mod route_course;
pub mod routes;
