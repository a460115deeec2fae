//! The module that is being written: a tree of sinks with one sink for each
//! part of the module, and the data segment with the literals interned in it.
use crate::sink::{NodeView, SinkId, SinkTree, TreeView};
use crate::text::{
    bytes_eq, copy_bytes, dec_digits, dec_int, dec_int_vec, dec_vec, hex_byte, hex_vec, le_bytes,
    le_vec, lit, push_bytes,
};
use vstd::prelude::*;

verus! {

/// The size of a page of WebAssembly memory.
pub const PAGE_SIZE: usize = 65536;

/// The bytes at the start of memory that no data is put in. The data segment
/// starts here.
pub const RESERVED_BYTES: usize = 2048;

/// The root sink: the text of the module.
pub const SINK_MAIN: SinkId = 0;

pub const SINK_IMPORTS: SinkId = 1;

pub const SINK_MEMORY: SinkId = 2;

pub const SINK_DATA: SinkId = 3;

pub const SINK_GVARS: SinkId = 4;

pub const SINK_FUNCS: SinkId = 5;

/// The body of the function that initialises the global variables.
pub const SINK_START: SinkId = 6;

pub const SINK_EXPORTS: SinkId = 7;

/// A table of interned literals with their addresses.
pub type InternTable = Seq<(Seq<u8>, u32)>;

pub struct Out {
    tree: SinkTree,
    data_len: usize,
    cstrs: Vec<(Vec<u8>, u32)>,
    strs: Vec<(Vec<u8>, u32)>,
}

pub struct OutView {
    pub tree: TreeView,
    /// The address after the last allocation of the data segment.
    pub data_len: usize,
    pub cstrs: InternTable,
    pub strs: InternTable,
}

/// `n`, rounded up to a multiple of 16.
pub open spec fn round_up16(n: int) -> int {
    (n + 15) / 16 * 16
}

/// The number of pages that hold `n` bytes.
pub open spec fn pages(n: int) -> int {
    (n + 65535) / 65536
}

/// The bytes of a data segment as they stand between the quotes: for each
/// byte a backslash and its two hexadecimal digits.
pub open spec fn escaped(bytes: Seq<u8>) -> Seq<u8>
    decreases bytes.len(),
{
    if bytes.len() == 0 {
        Seq::empty()
    } else {
        escaped(bytes.drop_last()) + seq![92u8] + hex_byte(bytes.last())
    }
}

/// The address under which `s` stands among the first `n` of `table`.
pub open spec fn intern_find(table: InternTable, s: Seq<u8>, n: int) -> Option<u32>
    decreases n,
{
    if n <= 0 {
        None
    } else if table[n - 1].0 == s {
        Some(table[n - 1].1)
    } else {
        intern_find(table, s, n - 1)
    }
}

/// Whether no literal stands twice in a table.
pub open spec fn table_distinct(table: InternTable) -> bool {
    forall|i: int, j: int|
        0 <= i < j < table.len() ==> (#[trigger] table[i]).0 != (#[trigger] table[j]).0
}

/// A string as it lies in memory: a reference count of one, the length in
/// bytes, and the bytes; count and length in four bytes each, least
/// significant first.
pub open spec fn str_image(s: Seq<u8>) -> Seq<u8> {
    le_bytes(1) + le_bytes(s.len() as u32) + s
}

/// The head of the function that initialises the global variables.
pub open spec fn start_head() -> Seq<u8> {
    lit("(func $__rt_start") + seq![10u8]
}

/// The end of the function that initialises the global variables, and the
/// line that makes it the start function of the module.
pub open spec fn start_tail() -> Seq<u8> {
    lit(")") + seq![10u8] + lit("(start $__rt_start)") + seq![10u8]
}

/// The root sink of a module behind the fragment `wfs`: the fragment, the
/// sinks for imports, memory, data, global variables and functions, the
/// start function around its sink, and the sink for exports.
pub open spec fn root_node(wfs: Seq<u8>) -> NodeView {
    NodeView {
        texts: seq![
            wfs,
            Seq::empty(),
            Seq::empty(),
            Seq::empty(),
            Seq::empty(),
            start_head(),
            start_tail(),
            Seq::empty(),
        ],
        children: seq![
            SINK_IMPORTS,
            SINK_MEMORY,
            SINK_DATA,
            SINK_GVARS,
            SINK_FUNCS,
            SINK_START,
            SINK_EXPORTS,
        ],
    }
}

/// Whether a text has the shape of a module behind the fragment `wfs`: the
/// fragment, the imports, the memory, the data, the global variables, the
/// functions, the start function, and the exports.
pub open spec fn module_shape(text: Seq<u8>, wfs: Seq<u8>) -> bool {
    exists|
        imports: Seq<u8>,
        memory: Seq<u8>,
        data: Seq<u8>,
        gvars: Seq<u8>,
        funcs: Seq<u8>,
        start: Seq<u8>,
        exports: Seq<u8>,
    |
        text == module_text(wfs, imports, memory, data, gvars, funcs, start, exports)
}

/// The text of a module from the texts of its parts.
pub open spec fn module_text(
    wfs: Seq<u8>,
    imports: Seq<u8>,
    memory: Seq<u8>,
    data: Seq<u8>,
    gvars: Seq<u8>,
    funcs: Seq<u8>,
    start: Seq<u8>,
    exports: Seq<u8>,
) -> Seq<u8> {
    wfs + imports + memory + data + gvars + funcs + start_head() + start + start_tail() + exports
}

impl OutView {
    /// Whether the root sink is that of a module behind the fragment `wfs`.
    pub open spec fn rooted(self, wfs: Seq<u8>) -> bool {
        self.tree.nodes[0] == root_node(wfs)
    }

    /// The sinks of the parts of the module exist, and the data segment ends
    /// at a multiple of 16 within 32-bit memory.
    pub open spec fn wf(self) -> bool {
        &&& self.tree.wf()
        &&& self.tree.nodes.len() >= 8
        &&& RESERVED_BYTES <= self.data_len <= u32::MAX
        &&& self.data_len % 16 == 0
    }

    /// The output with `bytes` written to `sink`.
    pub closed spec fn w(self, sink: SinkId, bytes: Seq<u8>) -> OutView {
        OutView { tree: self.tree.write(sink, bytes), ..self }
    }

    /// The output with a line feed written to `sink`.
    pub open spec fn nl(self, sink: SinkId) -> OutView {
        self.w(sink, seq![10u8])
    }

    /// The output with `bytes` and a line feed written to `sink`.
    pub open spec fn wln(self, sink: SinkId, bytes: Seq<u8>) -> OutView {
        self.w(sink, bytes).nl(sink)
    }

    /// The output with a new child of `sink`, which is `self.tree.next_id()`.
    pub closed spec fn spawn(self, sink: SinkId) -> OutView {
        OutView { tree: self.tree.spawn(sink), ..self }
    }

    /// The output at the start: the fragment `wfs`, then the sinks for
    /// imports, memory, data, global variables and functions, the start
    /// function around its sink, and the sink for exports.
    pub open spec fn fresh(wfs: Seq<u8>) -> OutView {
        OutView {
            tree: TreeView::fresh().write(SINK_MAIN, wfs).spawn(SINK_MAIN).spawn(SINK_MAIN).spawn(
                SINK_MAIN,
            ).spawn(SINK_MAIN).spawn(SINK_MAIN).write(SINK_MAIN, lit("(func $__rt_start")).write(
                SINK_MAIN,
                seq![10u8],
            ).spawn(SINK_MAIN).write(SINK_MAIN, lit(")")).write(SINK_MAIN, seq![10u8]).write(
                SINK_MAIN,
                lit("(start $__rt_start)"),
            ).write(SINK_MAIN, seq![10u8]).spawn(SINK_MAIN),
            data_len: RESERVED_BYTES,
            cstrs: Seq::empty(),
            strs: Seq::empty(),
        }
    }

    /// Whether every literal has one place in the data segment: none stands
    /// twice in its table.
    pub open spec fn interned_once(self) -> bool {
        table_distinct(self.cstrs) && table_distinct(self.strs)
    }

    /// Whether `n` more bytes fit into the data segment.
    pub open spec fn fits(self, n: int) -> bool {
        self.data_len + round_up16(n) <= u32::MAX
    }

    /// The output with `bytes` in the data segment, and their address; or
    /// nothing where they do not fit into 32-bit memory.
    pub open spec fn data(self, bytes: Seq<u8>) -> Option<(OutView, u32)> {
        if self.fits(bytes.len() as int) {
            Some(
                (
                    OutView {
                        data_len: (self.data_len + round_up16(bytes.len() as int)) as usize,
                        ..self.w(SINK_DATA, lit("(data (i32.const ")).w(
                            SINK_DATA,
                            dec_digits(self.data_len as nat),
                        ).w(SINK_DATA, lit(") \"")).w(SINK_DATA, escaped(bytes)).w(
                            SINK_DATA,
                            lit("\")"),
                        ).nl(SINK_DATA)
                    },
                    self.data_len as u32,
                ),
            )
        } else {
            None
        }
    }

    /// The address of the zero-terminated string `s`, which is put into the
    /// data segment unless it is there.
    pub open spec fn intern_cstr(self, s: Seq<u8>) -> Option<(OutView, u32)> {
        match intern_find(self.cstrs, s, self.cstrs.len() as int) {
            Some(ptr) => Some((self, ptr)),
            None => match self.data(s.push(0u8)) {
                Some((o, ptr)) => Some((OutView { cstrs: self.cstrs.push((s, ptr)), ..o }, ptr)),
                None => None,
            },
        }
    }

    /// The address of the string `s` of the language, which is put into the
    /// data segment unless it is there.
    pub open spec fn intern_str(self, s: Seq<u8>) -> Option<(OutView, u32)> {
        match intern_find(self.strs, s, self.strs.len() as int) {
            Some(ptr) => Some((self, ptr)),
            None => if s.len() <= u32::MAX {
                match self.data(str_image(s)) {
                    Some((o, ptr)) => Some((OutView { strs: self.strs.push((s, ptr)), ..o }, ptr)),
                    None => None,
                }
            } else {
                None
            },
        }
    }

    /// The output with the memory declared and the start of the heap set,
    /// both after the data segment.
    pub open spec fn finish(self) -> OutView {
        self.w(SINK_MEMORY, lit("(memory $rt_mem ")).w(
            SINK_MEMORY,
            dec_digits(pages(self.data_len as int) as nat),
        ).w(SINK_MEMORY, lit(")")).nl(SINK_MEMORY).w(
            SINK_GVARS,
            lit("(global $rt_heap_start i32 (i32.const "),
        ).w(SINK_GVARS, dec_digits(self.data_len as nat)).w(SINK_GVARS, lit("))")).nl(SINK_GVARS)
    }

    /// The text of the finished module.
    pub open spec fn text(self) -> Seq<u8> {
        self.finish().tree.text(SINK_MAIN)
    }
}

/// The views of the entries of an intern table.
pub open spec fn table_view(t: Seq<(Vec<u8>, u32)>) -> InternTable {
    Seq::new(t.len(), |i: int| (t[i].0@, t[i].1))
}

fn table_find(table: &Vec<(Vec<u8>, u32)>, s: &[u8]) -> (r: Option<u32>)
    ensures
        r == intern_find(table_view(table@), s@, table@.len() as int),
{
    let ghost t = table_view(table@);
    let mut n: usize = table.len();
    while n > 0
        invariant
            0 <= n <= table.len(),
            t == table_view(table@),
            intern_find(t, s@, table@.len() as int) == intern_find(t, s@, n as int),
        decreases n,
    {
        assert(t[n - 1] == (table@[n - 1].0@, table@[n - 1].1));
        if bytes_eq(table[n - 1].0.as_slice(), s) {
            return Some(table[n - 1].1);
        }
        n -= 1;
    }
    None
}

impl Out {
    pub closed spec fn view(&self) -> OutView {
        OutView {
            tree: self.tree@,
            data_len: self.data_len,
            cstrs: table_view(self.cstrs@),
            strs: table_view(self.strs@),
        }
    }

    pub open spec fn wf(&self) -> bool {
        self@.wf()
    }

    /// A module with nothing in it but the fragment `wfs`, which stands first.
    pub fn new(wfs: &[u8]) -> (r: Out)
        ensures
            r.wf(),
            r@ == OutView::fresh(wfs@),
            r@.rooted(wfs@),
            r@.interned_once(),
    {
        let mut tree = SinkTree::new();
        let mut nl: Vec<u8> = Vec::new();
        nl.push(10u8);
        assert(nl@ =~= seq![10u8]);
        tree.write(SINK_MAIN, wfs);
        let imports = tree.spawn(SINK_MAIN);
        let memory = tree.spawn(SINK_MAIN);
        let data = tree.spawn(SINK_MAIN);
        let gvars = tree.spawn(SINK_MAIN);
        let funcs = tree.spawn(SINK_MAIN);
        tree.write(SINK_MAIN, "(func $__rt_start".as_bytes());
        tree.write(SINK_MAIN, nl.as_slice());
        let start = tree.spawn(SINK_MAIN);
        tree.write(SINK_MAIN, ")".as_bytes());
        tree.write(SINK_MAIN, nl.as_slice());
        tree.write(SINK_MAIN, "(start $__rt_start)".as_bytes());
        tree.write(SINK_MAIN, nl.as_slice());
        let exports = tree.spawn(SINK_MAIN);
        let r = Out { tree, data_len: RESERVED_BYTES, cstrs: Vec::new(), strs: Vec::new() };
        proof {
            assert(r@.cstrs =~= Seq::empty());
            assert(r@.strs =~= Seq::empty());
            assert(r@.tree.nodes[0].texts =~~= root_node(wfs@).texts);
            assert(r@.tree.nodes[0].children =~~= root_node(wfs@).children);
        }
        r
    }

    /// Appends `bytes` to the text of `sink`.
    pub fn write(&mut self, sink: SinkId, bytes: &[u8])
        requires
            old(self).wf(),
            old(self)@.tree.has(sink),
        ensures
            final(self).wf(),
            final(self)@ == old(self)@.w(sink, bytes@),
            final(self)@.tree.nodes.len() == old(self)@.tree.nodes.len(),
            sink != SINK_MAIN ==> final(self)@.tree.nodes[0] == old(self)@.tree.nodes[0],
    {
        self.tree.write(sink, bytes);
    }

    /// Appends the bytes of the literal `s` to the text of `sink`.
    pub fn write_lit(&mut self, sink: SinkId, s: &str)
        requires
            old(self).wf(),
            old(self)@.tree.has(sink),
        ensures
            final(self).wf(),
            final(self)@ == old(self)@.w(sink, lit(s)),
            final(self)@.tree.nodes.len() == old(self)@.tree.nodes.len(),
            sink != SINK_MAIN ==> final(self)@.tree.nodes[0] == old(self)@.tree.nodes[0],
    {
        self.tree.write(sink, s.as_bytes());
    }

    /// Appends a line feed to the text of `sink`.
    pub fn newline(&mut self, sink: SinkId)
        requires
            old(self).wf(),
            old(self)@.tree.has(sink),
        ensures
            final(self).wf(),
            final(self)@ == old(self)@.nl(sink),
            final(self)@.tree.nodes.len() == old(self)@.tree.nodes.len(),
            sink != SINK_MAIN ==> final(self)@.tree.nodes[0] == old(self)@.tree.nodes[0],
    {
        let mut nl: Vec<u8> = Vec::new();
        nl.push(10u8);
        assert(nl@ =~= seq![10u8]);
        self.tree.write(sink, nl.as_slice());
    }

    /// Appends the literal `s` and a line feed to the text of `sink`.
    pub fn writeln_lit(&mut self, sink: SinkId, s: &str)
        requires
            old(self).wf(),
            old(self)@.tree.has(sink),
        ensures
            final(self).wf(),
            final(self)@ == old(self)@.wln(sink, lit(s)),
            final(self)@.tree.nodes.len() == old(self)@.tree.nodes.len(),
            sink != SINK_MAIN ==> final(self)@.tree.nodes[0] == old(self)@.tree.nodes[0],
    {
        self.write_lit(sink, s);
        self.newline(sink);
    }

    /// Appends `n` in decimal to the text of `sink`.
    pub fn write_dec(&mut self, sink: SinkId, n: u64)
        requires
            old(self).wf(),
            old(self)@.tree.has(sink),
        ensures
            final(self).wf(),
            final(self)@ == old(self)@.w(sink, dec_digits(n as nat)),
            final(self)@.tree.nodes.len() == old(self)@.tree.nodes.len(),
            sink != SINK_MAIN ==> final(self)@.tree.nodes[0] == old(self)@.tree.nodes[0],
    {
        let digits = dec_vec(n);
        self.tree.write(sink, digits.as_slice());
    }

    /// Appends `x` in decimal, with its sign, to the text of `sink`.
    pub fn write_int(&mut self, sink: SinkId, x: i64)
        requires
            old(self).wf(),
            old(self)@.tree.has(sink),
        ensures
            final(self).wf(),
            final(self)@ == old(self)@.w(sink, dec_int(x as int)),
            final(self)@.tree.nodes.len() == old(self)@.tree.nodes.len(),
            sink != SINK_MAIN ==> final(self)@.tree.nodes[0] == old(self)@.tree.nodes[0],
    {
        let digits = dec_int_vec(x);
        self.tree.write(sink, digits.as_slice());
    }

    /// Makes a child of `sink` at the end of its text.
    pub fn spawn(&mut self, sink: SinkId) -> (id: SinkId)
        requires
            old(self).wf(),
            old(self)@.tree.has(sink),
        ensures
            final(self).wf(),
            id == old(self)@.tree.next_id(),
            final(self)@ == old(self)@.spawn(sink),
            final(self)@.tree.has(id),
            final(self)@.tree.nodes.len() == old(self)@.tree.nodes.len() + 1,
            sink != SINK_MAIN ==> final(self)@.tree.nodes[0] == old(self)@.tree.nodes[0],
    {
        self.tree.spawn(sink)
    }

    /// The address after the last allocation of the data segment.
    pub fn data_len(&self) -> (n: usize)
        ensures
            n == self@.data_len,
    {
        self.data_len
    }

    /// Puts `bytes` into the data segment, at the next multiple of 16, and
    /// returns their address. Where they do not fit into 32-bit memory,
    /// nothing changes and nothing is returned.
    pub fn data(&mut self, bytes: &[u8]) -> (r: Option<u32>)
        requires
            old(self).wf(),
        ensures
            final(self).wf(),
            match old(self)@.data(bytes@) {
                Some((o, ptr)) => r == Some(ptr) && final(self)@ == o,
                None => r is None && final(self)@ == old(self)@,
            },
            final(self)@.tree.nodes.len() == old(self)@.tree.nodes.len(),
            r matches Some(ptr) ==> ptr % 16 == 0 && ptr >= RESERVED_BYTES,
            final(self)@.tree.nodes[0] == old(self)@.tree.nodes[0],
    {
        let len: usize = bytes.len();
        if len > 0xffff_ffff {
            return None;
        }
        let reserve: u64 = (len as u64 + 15) / 16 * 16;
        let total: u64 = self.data_len as u64 + reserve;
        if total > 0xffff_ffff {
            return None;
        }
        let ptr: u32 = self.data_len as u32;
        let mut esc: Vec<u8> = Vec::new();
        let mut i: usize = 0;
        while i < len
            invariant
                len == bytes@.len(),
                0 <= i <= len,
                esc@ == escaped(bytes@.subrange(0, i as int)),
            decreases len - i,
        {
            let h = hex_vec(bytes[i]);
            esc.push(92u8);
            push_bytes(&mut esc, h.as_slice());
            proof {
                let s = bytes@.subrange(0, i + 1);
                assert(s.drop_last() =~= bytes@.subrange(0, i as int));
                assert(esc@ =~= escaped(s));
            }
            i += 1;
        }
        assert(bytes@.subrange(0, len as int) =~= bytes@);
        self.write_lit(SINK_DATA, "(data (i32.const ");
        self.write_dec(SINK_DATA, ptr as u64);
        self.write_lit(SINK_DATA, ") \"");
        self.write(SINK_DATA, esc.as_slice());
        self.write_lit(SINK_DATA, "\")");
        self.newline(SINK_DATA);
        self.data_len = total as usize;
        Some(ptr)
    }

    /// The address of the zero-terminated string `s` in the data segment.
    /// The string is put there the first time; later calls with the same
    /// bytes give the same address and change nothing.
    pub fn intern_cstr(&mut self, s: &[u8]) -> (r: Option<u32>)
        requires
            old(self).wf(),
        ensures
            final(self).wf(),
            match old(self)@.intern_cstr(s@) {
                Some((o, ptr)) => r == Some(ptr) && final(self)@ == o,
                None => r is None && final(self)@ == old(self)@,
            },
            old(self)@.interned_once() ==> final(self)@.interned_once(),
            final(self)@.tree.nodes.len() == old(self)@.tree.nodes.len(),
            final(self)@.tree.nodes[0] == old(self)@.tree.nodes[0],
    {
        proof {
            if self@.interned_once() {
                lemma_interned_once(self@, s@);
            }
        }
        match table_find(&self.cstrs, s) {
            Some(ptr) => Some(ptr),
            None => {
                let mut buffer = copy_bytes(s);
                buffer.push(0u8);
                match self.data(buffer.as_slice()) {
                    Some(ptr) => {
                        let ghost before = self@;
                        self.cstrs.push((copy_bytes(s), ptr));
                        assert(self@.cstrs =~= before.cstrs.push((s@, ptr)));
                        Some(ptr)
                    },
                    None => None,
                }
            },
        }
    }

    /// The address of the string `s` of the language in the data segment:
    /// of its reference count, which is one and is followed by the length
    /// and the bytes. The string is put there the first time; later calls
    /// with the same bytes give the same address and change nothing.
    pub fn intern_str(&mut self, s: &[u8]) -> (r: Option<u32>)
        requires
            old(self).wf(),
        ensures
            final(self).wf(),
            match old(self)@.intern_str(s@) {
                Some((o, ptr)) => r == Some(ptr) && final(self)@ == o,
                None => r is None && final(self)@ == old(self)@,
            },
            old(self)@.interned_once() ==> final(self)@.interned_once(),
            final(self)@.tree.nodes.len() == old(self)@.tree.nodes.len(),
            final(self)@.tree.nodes[0] == old(self)@.tree.nodes[0],
    {
        proof {
            if self@.interned_once() {
                lemma_interned_once(self@, s@);
            }
        }
        match table_find(&self.strs, s) {
            Some(ptr) => Some(ptr),
            None => {
                if s.len() > 0xffff_ffff {
                    return None;
                }
                let mut buffer = le_vec(1);
                let length = le_vec(s.len() as u32);
                push_bytes(&mut buffer, length.as_slice());
                push_bytes(&mut buffer, s);
                match self.data(buffer.as_slice()) {
                    Some(ptr) => {
                        let ghost before = self@;
                        self.strs.push((copy_bytes(s), ptr));
                        assert(self@.strs =~= before.strs.push((s@, ptr)));
                        Some(ptr)
                    },
                    None => None,
                }
            },
        }
    }

    /// Finishes the module and returns its text: the memory is declared with
    /// as many pages as hold the data segment, the heap starts after the
    /// data segment, and the sinks are read in order.
    pub fn get(self) -> (r: Vec<u8>)
        requires
            self.wf(),
        ensures
            r@ == self@.text(),
            forall|wfs: Seq<u8>| self@.rooted(wfs) ==> module_shape(r@, wfs),
    {
        let mut out = self;
        let len: usize = out.data_len;
        let page_len: u64 = (len as u64 + (PAGE_SIZE as u64 - 1)) / (PAGE_SIZE as u64);
        out.write_lit(SINK_MEMORY, "(memory $rt_mem ");
        out.write_dec(SINK_MEMORY, page_len);
        out.write_lit(SINK_MEMORY, ")");
        out.newline(SINK_MEMORY);
        out.write_lit(SINK_GVARS, "(global $rt_heap_start i32 (i32.const ");
        out.write_dec(SINK_GVARS, len as u64);
        out.write_lit(SINK_GVARS, "))");
        out.newline(SINK_GVARS);
        proof {
            assert forall|wfs: Seq<u8>| self@.rooted(wfs) implies module_shape(
                out@.tree.text(SINK_MAIN),
                wfs,
            ) by {
                lemma_module_text(out@, wfs);
            }
        }
        out.tree.get()
    }
}

/// The text of a module is the fragment, the texts of the sinks for
/// imports, memory, data, global variables and functions, the start function
/// around the text of its sink, and the text of the sink for exports.
pub proof fn lemma_module_text(o: OutView, wfs: Seq<u8>)
    requires
        o.wf(),
        o.rooted(wfs),
    ensures
        o.tree.text(SINK_MAIN) == module_text(
            wfs,
            o.tree.text(SINK_IMPORTS),
            o.tree.text(SINK_MEMORY),
            o.tree.text(SINK_DATA),
            o.tree.text(SINK_GVARS),
            o.tree.text(SINK_FUNCS),
            o.tree.text(SINK_START),
            o.tree.text(SINK_EXPORTS),
        ),
        module_shape(o.tree.text(SINK_MAIN), wfs),
{
    let t = o.tree;
    let n = t.nodes[0];
    let e = Seq::<u8>::empty();
    assert(n.children.len() == 7 && n.texts.len() == 8);
    assert(n.children[0] == 1 && n.children[1] == 2 && n.children[2] == 3 && n.children[3] == 4);
    assert(n.children[4] == 5 && n.children[5] == 6 && n.children[6] == 7);
    assert(n.texts[0] == wfs && n.texts[1] == e && n.texts[2] == e && n.texts[3] == e);
    assert(n.texts[4] == e && n.texts[5] == start_head() && n.texts[6] == start_tail());
    assert(n.texts[7] == e);
    lemma_root_text(t, wfs);
}

/// The part of `lemma_module_text` that reads the root sink piece by piece.
proof fn lemma_root_text(t: TreeView, wfs: Seq<u8>)
    requires
        t.nodes.len() >= 8,
        t.nodes[0].children.len() == 7,
        t.nodes[0].texts.len() == 8,
        t.nodes[0].children[0] == 1,
        t.nodes[0].children[1] == 2,
        t.nodes[0].children[2] == 3,
        t.nodes[0].children[3] == 4,
        t.nodes[0].children[4] == 5,
        t.nodes[0].children[5] == 6,
        t.nodes[0].children[6] == 7,
        t.nodes[0].texts[0] == wfs,
        t.nodes[0].texts[1] == Seq::<u8>::empty(),
        t.nodes[0].texts[2] == Seq::<u8>::empty(),
        t.nodes[0].texts[3] == Seq::<u8>::empty(),
        t.nodes[0].texts[4] == Seq::<u8>::empty(),
        t.nodes[0].texts[5] == start_head(),
        t.nodes[0].texts[6] == start_tail(),
        t.nodes[0].texts[7] == Seq::<u8>::empty(),
    ensures
        t.text(SINK_MAIN) == module_text(
            wfs,
            t.text(SINK_IMPORTS),
            t.text(SINK_MEMORY),
            t.text(SINK_DATA),
            t.text(SINK_GVARS),
            t.text(SINK_FUNCS),
            t.text(SINK_START),
            t.text(SINK_EXPORTS),
        ),
        module_shape(t.text(SINK_MAIN), wfs),
{
    let e = Seq::<u8>::empty();
    assert(t.text_from(0, 7) == e);
    assert(t.text_from(0, 6) == start_tail() + t.text_from(7, 0) + t.text_from(0, 7));
    assert(t.text_from(0, 5) == start_head() + t.text_from(6, 0) + t.text_from(0, 6));
    assert(t.text_from(0, 4) == e + t.text_from(5, 0) + t.text_from(0, 5));
    assert(t.text_from(0, 3) == e + t.text_from(4, 0) + t.text_from(0, 4));
    assert(t.text_from(0, 2) == e + t.text_from(3, 0) + t.text_from(0, 3));
    assert(t.text_from(0, 1) == e + t.text_from(2, 0) + t.text_from(0, 2));
    assert(t.text_from(0, 0) == wfs + t.text_from(1, 0) + t.text_from(0, 1));
    assert(t.text(SINK_MAIN) =~= module_text(
        wfs,
        t.text(SINK_IMPORTS),
        t.text(SINK_MEMORY),
        t.text(SINK_DATA),
        t.text(SINK_GVARS),
        t.text(SINK_FUNCS),
        t.text(SINK_START),
        t.text(SINK_EXPORTS),
    ));
}

/// Writing changes the tree of sinks as a write to the sink does, and
/// nothing else.
pub proof fn lemma_w(o: OutView, sink: SinkId, bytes: Seq<u8>)
    ensures
        o.w(sink, bytes) == (OutView { tree: o.tree.write(sink, bytes), ..o }),
{
}

/// Spawning changes the tree of sinks as a new child of the sink does, and
/// nothing else.
pub proof fn lemma_spawn(o: OutView, sink: SinkId)
    ensures
        o.spawn(sink) == (OutView { tree: o.tree.spawn(sink), ..o }),
{
}

/// Interning the same string a second time gives the same address and leaves
/// the output as it is.
pub proof fn lemma_intern_str_twice(o: OutView, s: Seq<u8>)
    ensures
        match o.intern_str(s) {
            Some((o1, ptr)) => o1.intern_str(s) == Some((o1, ptr)),
            None => true,
        },
{
}

/// Interning the same zero-terminated string a second time gives the same
/// address and leaves the output as it is.
pub proof fn lemma_intern_cstr_twice(o: OutView, s: Seq<u8>)
    ensures
        match o.intern_cstr(s) {
            Some((o1, ptr)) => o1.intern_cstr(s) == Some((o1, ptr)),
            None => true,
        },
{
}

/// An allocation of the data segment starts at a multiple of 16, at or after
/// the reserved bytes, and the next one starts after it.
pub proof fn lemma_data_aligned(o: OutView, bytes: Seq<u8>)
    requires
        o.wf(),
    ensures
        match o.data(bytes) {
            Some((o1, ptr)) => {
                &&& ptr % 16 == 0
                &&& ptr == o.data_len
                &&& o1.data_len >= o.data_len + bytes.len()
                &&& o1.data_len % 16 == 0
                &&& o1.data_len <= u32::MAX
            },
            None => true,
        },
{
}

/// A literal that is not found in a table stands nowhere in it.
pub proof fn lemma_intern_find_none(table: InternTable, s: Seq<u8>, n: int)
    requires
        0 <= n <= table.len(),
        intern_find(table, s, n) is None,
    ensures
        forall|i: int| 0 <= i < n ==> (#[trigger] table[i]).0 != s,
    decreases n,
{
    if n > 0 {
        lemma_intern_find_none(table, s, n - 1);
    }
}

/// Interning keeps every literal at one place: a literal is put into its
/// table only where it is not found there. Writing and new sinks leave the
/// tables as they are.
pub proof fn lemma_interned_once(o: OutView, s: Seq<u8>)
    requires
        o.interned_once(),
    ensures
        o.intern_str(s) matches Some((o1, _)) ==> o1.interned_once(),
        o.intern_cstr(s) matches Some((o1, _)) ==> o1.interned_once(),
        forall|sink: SinkId, bytes: Seq<u8>| (#[trigger] o.w(sink, bytes)).interned_once(),
        forall|sink: SinkId| (#[trigger] o.spawn(sink)).interned_once(),
{
    if intern_find(o.strs, s, o.strs.len() as int) is None {
        lemma_intern_find_none(o.strs, s, o.strs.len() as int);
    }
    if intern_find(o.cstrs, s, o.cstrs.len() as int) is None {
        lemma_intern_find_none(o.cstrs, s, o.cstrs.len() as int);
    }
}

} // verus!
