use memcore::index::{Count, Index, IndexError, IndexResult, OffsetCheck};

fn assert_offset(index: Index, count: Count, result: IndexResult<OffsetCheck>) {
    assert_eq!(
        index.check_offset(count),
        result,
        "{:?}.check_offset({:?})",
        index,
        count,
    );
}

#[test]
fn count_double_or_max_for_very_small_values() {
    assert_eq!(Count::of(0).double_or_max(1), Count::of(1));
    assert_eq!(Count::of(0).double_or_max(2), Count::of(2));
    assert_eq!(Count::of(1).double_or_max(50), Count::of(50));
    assert_eq!(Count::of(200).double_or_max(127), Count::of(400));
}

#[test]
fn count_double_or_max_for_small_values() {
    assert_eq!(Count::of(123).double_or_max(2), Count::of(246));
    assert_eq!(
        Count::of(100_010_001).double_or_max(3),
        Count::of(200_020_002)
    );
    assert_eq!(
        Count::from_usize(Count::max_usize() / 2 - 1)
            .expect("ok")
            .double_or_max(4),
        Count::of(9_223_372_036_854_775_806)
    );
}

#[test]
fn count_double_or_max_for_large_values() {
    assert_eq!(Count::max_value().double_or_max(5), Count::max_value());
    assert_eq!(Count::of(i64::MAX - 5).double_or_max(6), Count::max_value());
    assert_eq!(
        Count::of(i64::MAX / 2 + 5).double_or_max(7),
        Count::max_value()
    );
}

#[test]
fn of_positive_values_less_than_count() {
    assert_offset(Index::Of(1), Count::of(5), Ok(OffsetCheck::in_bounds(1)));
    assert_offset(
        Index::Of(123),
        Count::of(124),
        Ok(OffsetCheck::in_bounds(123)),
    );
    assert_offset(
        Index::Of(Count::max_value().max_offset()),
        Count::max_value(),
        Ok(OffsetCheck::in_bounds(9_223_372_036_854_775_807)),
    )
}

#[test]
fn of_positive_values_greater_or_equal_to_count() {
    assert_offset(
        Index::Of(7),
        Count::of(4),
        Ok(OffsetCheck::increases_count(7)),
    );
    assert_offset(
        Index::Of(8),
        Count::of(0),
        Ok(OffsetCheck::increases_count(8)),
    );
    assert_offset(
        Index::Of(9),
        Count::of(9),
        Ok(OffsetCheck::increases_count(9)),
    );
    assert_offset(
        Index::Of(Count::max_value().max_offset()),
        Count::from_usize(Count::max_usize() - 1).expect("ok"),
        Ok(OffsetCheck::increases_count(9_223_372_036_854_775_807)),
    )
}

#[test]
fn of_negative_values_within_size() {
    assert_offset(Index::Of(-1), Count::of(5), Ok(OffsetCheck::in_bounds(4)));
    assert_offset(Index::Of(-3), Count::of(5), Ok(OffsetCheck::in_bounds(2)));
    assert_offset(Index::Of(-5), Count::of(5), Ok(OffsetCheck::in_bounds(0)));

    assert_offset(Index::Of(-7), Count::of(8), Ok(OffsetCheck::in_bounds(1)));
    assert_offset(Index::Of(-3), Count::of(8), Ok(OffsetCheck::in_bounds(5)));
}

#[test]
fn of_negative_values_beyond_size_errs() {
    assert_offset(Index::Of(-6), Count::of(5), Err(IndexError::OutOfBounds));
    assert_offset(Index::Of(-100), Count::of(8), Err(IndexError::OutOfBounds));
}

#[test]
fn in_bounds_positive_less_than_count() {
    assert_offset(
        Index::InBounds(0),
        Count::of(5),
        Ok(OffsetCheck::in_bounds(0)),
    );
    assert_offset(
        Index::InBounds(4),
        Count::of(5),
        Ok(OffsetCheck::in_bounds(4)),
    );
    assert_offset(
        Index::InBounds(3),
        Count::of(100),
        Ok(OffsetCheck::in_bounds(3)),
    );
    assert_offset(
        Index::InBounds(77),
        Count::of(100),
        Ok(OffsetCheck::in_bounds(77)),
    );
}

#[test]
fn in_bounds_negative_or_beyond_count_errs() {
    assert_offset(
        Index::InBounds(-1),
        Count::of(5),
        Err(IndexError::OutOfBounds),
    );
    assert_offset(
        Index::InBounds(5),
        Count::of(5),
        Err(IndexError::OutOfBounds),
    );
    assert_offset(
        Index::InBounds(5),
        Count::of(4),
        Err(IndexError::OutOfBounds),
    );
}

#[test]
fn wrap_negative_values() {
    assert_offset(Index::Wrap(-1), Count::of(5), Ok(OffsetCheck::in_bounds(4)));
    assert_offset(Index::Wrap(-3), Count::of(5), Ok(OffsetCheck::in_bounds(2)));
    assert_offset(Index::Wrap(-5), Count::of(5), Ok(OffsetCheck::in_bounds(0)));
    assert_offset(Index::Wrap(-7), Count::of(5), Ok(OffsetCheck::in_bounds(3)));

    assert_offset(Index::Wrap(-7), Count::of(8), Ok(OffsetCheck::in_bounds(1)));
    assert_offset(Index::Wrap(-9), Count::of(8), Ok(OffsetCheck::in_bounds(7)));

    assert_offset(
        Index::Wrap(i64::MIN),
        Count::max_value(),
        Ok(OffsetCheck::in_bounds(0)),
    );
    assert_offset(
        Index::Wrap(-3),
        Count::max_value(),
        Ok(OffsetCheck::in_bounds(
            i64::MAX - 3 + 1, /* +1 is because i64::MAX is short Count::max_value() by 1. */
        )),
    );
}

#[test]
fn wrap_positive_values() {
    assert_offset(Index::Wrap(1), Count::of(5), Ok(OffsetCheck::in_bounds(1)));
    assert_offset(Index::Wrap(3), Count::of(5), Ok(OffsetCheck::in_bounds(3)));
    assert_offset(Index::Wrap(5), Count::of(5), Ok(OffsetCheck::in_bounds(0)));
    assert_offset(Index::Wrap(7), Count::of(5), Ok(OffsetCheck::in_bounds(2)));

    assert_offset(Index::Wrap(7), Count::of(8), Ok(OffsetCheck::in_bounds(7)));
    assert_offset(Index::Wrap(9), Count::of(8), Ok(OffsetCheck::in_bounds(1)));

    assert_offset(
        Index::Wrap(i64::MAX),
        Count::max_value(),
        Ok(OffsetCheck::in_bounds(i64::MAX)),
    );
    assert_offset(
        Index::Wrap(77),
        Count::max_value(),
        Ok(OffsetCheck::in_bounds(77)),
    );
}

#[test]
fn wrap_nonpositive_counts_errs() {
    for value in vec![-5, 0, 4] {
        assert_offset(
            Index::Wrap(value),
            Count::of(0),
            Err(IndexError::EmptySequence),
        );
    }
}

#[test]
fn ordinal_above_count() {
    assert_offset(
        Index::Ordinal(Count::of(1)),
        Count::of(0),
        Ok(OffsetCheck::increases_count(0)),
    );
    assert_offset(
        Index::Ordinal(Count::of(2)),
        Count::of(1),
        Ok(OffsetCheck::increases_count(1)),
    );

    for count in vec![0, 1, 2] {
        for value in count + 1..count + 4 {
            assert_offset(
                Index::Ordinal(Count::of(value)),
                Count::of(count),
                Ok(OffsetCheck::increases_count(value - 1)),
            );
        }
    }
}

#[test]
fn ordinal_within_or_equal_to_count() {
    assert_offset(
        Index::Ordinal(Count::of(1)),
        Count::of(1),
        Ok(OffsetCheck::in_bounds(0)),
    );
    for count in vec![2, 3, 6] {
        for value in vec![1, count] {
            assert_offset(
                Index::Ordinal(Count::of(value)),
                Count::of(count),
                Ok(OffsetCheck::in_bounds(value - 1)),
            );
        }
    }
}

#[test]
fn ordinal_when_nonpositive_errs() {
    for count in vec![0, 1, 2] {
        assert_offset(
            Index::Ordinal(Count::of(0)),
            Count::of(count),
            Err(IndexError::InvalidOrdinal),
        );
    }
}
