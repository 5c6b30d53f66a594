//! Concrete environments: a line world, a grid world, a three-door selection
//! puzzle and a rock-paper-scissors game.

pub mod grid_world;
pub mod line_world;
pub mod mounty_hall_3;
pub mod rock_paper_scissors;
