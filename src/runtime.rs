use vstd::prelude::*;
use vstd::string::StringExecFns;

verus! {

/// The context a native module instance runs in.
pub struct Context {
    /// Identifies the module instance; signals are routed by it.
    pub id: usize,
    /// The application's data directory.
    pub data_path: String,
}

impl Context {
    pub fn new(id: usize, data_path: &str) -> (r: Self)
        ensures
            r.id == id,
            r.data_path@ == data_path@,
    {
        Context { id, data_path: String::from_str(data_path) }
    }
}

/// The error an asynchronous method rejects with.
pub struct PromiseError {
    pub message: String,
}

/// The result of an asynchronous method.
pub type Promise<T> = Result<T, PromiseError>;

/// Resolves a promise with a value.
pub fn resolve<T>(val: T) -> (r: Promise<T>)
    ensures
        r == Ok::<T, PromiseError>(val),
{
    Ok(val)
}

/// Rejects a promise with an error message.
pub fn reject<T>(err: &str) -> (r: Promise<T>)
    ensures
        r is Err && r->Err_0.message@ == err@,
{
    Err(PromiseError { message: String::from_str(err) })
}

/// A value that may be null, as a module's implementor sees it.
pub struct Nullable<T> {
    val: Option<T>,
}

impl<T> View for Nullable<T> {
    type V = Option<T>;

    closed spec fn view(&self) -> Option<T> {
        self.val
    }
}

impl<T> Nullable<T> {
    pub fn new(val: Option<T>) -> (r: Self)
        ensures
            r@ == val,
    {
        Nullable { val }
    }

    pub fn some(val: T) -> (r: Self)
        ensures
            r@ == Some(val),
    {
        Nullable { val: Some(val) }
    }

    pub fn none() -> (r: Self)
        ensures
            r@ == None::<T>,
    {
        Nullable { val: None }
    }

    /// Sets the value.
    pub fn value(self, val: T) -> (r: Self)
        ensures
            r@ == Some(val),
    {
        Nullable { val: Some(val) }
    }

    /// Borrows the value, if there is one.
    pub fn value_of(&self) -> (r: Option<&T>)
        ensures
            r is Some <==> self@ is Some,
            r is Some ==> *r->0 == self@->0,
    {
        match &self.val {
            Some(v) => Some(v),
            None => None,
        }
    }

    /// Takes the value out.
    pub fn into_value(self) -> (r: Option<T>)
        ensures
            r == self@,
    {
        self.val
    }
}

} // verus!
