//! A verified core for a terminal snake game: grid geometry, the snake's
//! body, the set of open cells that food may be placed on, and the engine
//! that advances the game by one tick per input direction.

pub mod engine;
pub mod geometry;
pub mod input;
pub mod snake;
pub mod space;

pub use engine::GameSettings;
pub use engine::GameState;
pub use engine::SnakeGame;
pub use geometry::Dir;
pub use geometry::TermPoint;
pub use input::UserInput;
pub use input::resolve_direction;
pub use snake::BodySegment;
pub use snake::Snake;
pub use space::OpenSpace;
