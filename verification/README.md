# kernel_vmem

x86-64 paging and early-kernel bring-up for a hobby operating system, with
its logic proved correct by Verus.

## Layout

- `src/` — the verified library.
  - `addresses`, `page_entry_bits`, `bits`, `bitfield`: addresses, pages,
    the bit layout of page-table entries and the flags they carry.
  - `page_table`, `table2`: typed entries and tables of the four paging
    levels (PML4, PDPT, PD, PT), their decoding into leaf / next-table
    forms, and the split of a virtual address into table indices.
  - `phys`: the interfaces to table memory (`PhysMapper`) and to a frame
    allocator (`PhysFrameAlloc`), with in-memory implementations.
  - `address_space`: an address space rooted at a PML4 — walking,
    querying, mapping pages and regions, unmapping, freeing empty tables —
    specified by the translation that the MMU performs on the tables.
  - `kernel`: the kernel's own data structures and arithmetic — the
    first-fit heap allocator, the ELF64 program-header reader, GDT
    descriptors and selectors, TSS descriptor, IDT gates, CPUID decoding,
    x2APIC register values and timer calibration arithmetic, per-CPU stack
    windows and stack mapping, the framebuffer fill plan, and page-table
    diagnostics.
- `tests/` — scenarios run against the compiled library.
- `app/` — the kernel around the library: the entry point, the privileged
  instructions (`rdmsr`/`wrmsr`, `cpuid`, `rdtsc`, CR2/CR3, `lgdt`,
  `lidt`, `ltr`), interrupt entry stubs, the global allocator, and error
  types with `Display`.

## The central properties

- `AddressSpace::query` returns exactly the translation of the tables.
- `AddressSpace::map_one` makes every address of the page translate into
  the given physical page at the same offset; every other translation
  stays (a large leaf in the way is split into smaller leaves that map the
  same memory). The leaf holds the caller's leaf flags, and every table
  link it had to make holds the caller's non-leaf flags; nothing else is
  set on the caller's behalf.
- `AddressSpace::map_region` maps `[virt_start, virt_start + len)` byte for
  byte onto `[phys_start, phys_start + len)` with the largest pages that the
  alignment allows, every leaf holding the caller's flags and every table
  link it made the caller's non-leaf flags (`step_level` names the page
  size of each step); on failure the part mapped so far stays mapped and
  the page that failed still lacks a table of its chain.
- `AddressSpace::map_fresh_4k` (and the stack mappers built on it) backs
  each page with its own frame taken from the allocator; a stack's guard
  page is never mapped by it.
- `unmap_one`, `unmap_region` only remove translations, and only inside
  the range asked for; from a page-aligned start, a large leaf that the
  range covers only in part keeps its translations. `collapse_empty_tables` keeps every translation
  and every entry but the links to the tables it frees, leaves no
  reachable table empty, and changes nothing when called again. Every
  operation keeps the tables well formed and takes table frames only from
  the allocator.
