pub mod execution_plan;
pub mod planner;

pub use execution_plan::ExecutionPlan;
pub use planner::Planner;
