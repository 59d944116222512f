pub mod protected_route;
