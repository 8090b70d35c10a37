//! A small deterministic automaton: a programmable agent (`Robot`) whose
//! behaviour is authored as a 2D grid of instructions (`Brain`) traversed by a
//! moving instruction pointer (`Reader`). A fixed-timestep execution engine
//! advances every Robot's Reader by whole quanta, dispatching per-cell
//! instruction effects onto the Robot's position and facing and consulting a
//! separate world grid for movement legality.

pub mod brain;
pub mod errors;
pub mod grid_world;
pub mod instruction;
pub mod robot;
pub mod rotation;
pub mod world;

pub use brain::Brain;
pub use brain::BrainView;
pub use brain::Reader;
pub use errors::EditError;
pub use grid_world::Cell;
pub use grid_world::GridWorld;
pub use grid_world::GridWorldView;
pub use instruction::Instruction;
pub use instruction::InstructionType;
pub use robot::Robot;
pub use robot::RobotView;
pub use rotation::Rotation;
pub use world::update_robots;
pub use world::World;
pub use world::WorldView;
