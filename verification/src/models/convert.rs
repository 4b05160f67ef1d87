use vstd::prelude::*;

verus! {

/// Conversion that cannot fail: where the conversion proper fails, the
/// default of the target stands in.
pub trait ForceConvert: Sized {
    /// `self` converted, or the default of `T` where `self` does not
    /// convert.
    fn force_into<T>(self) -> (r: T) where T: TryFrom<Self> + Default, Self: TryInto<T>
        ensures
            exists|tried: Result<T, <Self as TryInto<T>>::Error>|
                #![trigger call_ensures(<Self as TryInto<T>>::try_into, (self,), tried)]
                call_ensures(<Self as TryInto<T>>::try_into, (self,), tried) && match tried {
                    Ok(v) => r == v,
                    Err(_) => call_ensures(T::default, (), r),
                },
    {
        let tried: Result<T, <Self as TryInto<T>>::Error> = self.try_into();
        match tried {
            Ok(v) => v,
            Err(_) => T::default(),
        }
    }
}

} // verus!
