use vstd::prelude::*;

verus! {

/// The single slot that holds the latest exposition text.
pub struct MetricsCache {
    pub data: String,
}

impl View for MetricsCache {
    type V = Seq<char>;

    open spec fn view(&self) -> Seq<char> {
        self.data@
    }
}

impl MetricsCache {
    /// An empty slot.
    pub fn new() -> (r: Self)
        ensures
            r@ == Seq::<char>::empty(),
    {
        Self { data: String::new() }
    }

    /// Replaces the whole content with `text`.
    pub fn write(&mut self, text: String)
        ensures
            final(self)@ == text@,
    {
        self.data = text;
    }

    /// A copy of the current content.
    pub fn read(&self) -> (r: String)
        ensures
            r@ == self@,
    {
        self.data.clone()
    }
}

} // verus!
