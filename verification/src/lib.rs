pub mod half_space;
