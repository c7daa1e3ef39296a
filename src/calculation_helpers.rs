pub mod calculate_bench_king_for_week;
pub mod calculate_optimal_points;
pub mod report;
