# caf

A small peer-to-peer package manager. Nodes find each other through a
Kademlia DHT, announce the packages they provide, and fetch packages from one
another over a request-response protocol.

## Layout

- `src/` — the verified library:
  - `path`: joining path components, as a path is extended on Unix.
  - `package`, `pkgman`: package ids and contents, the layout of the package
    store (`{root}/pkgs/{name}/{version}/content.zip`, `{root}/pkgs/{name}/metadata.json`),
    what installing a package writes, what retrieval reads, the error
    messages of each step, the order of the steps of an installation, and the
    listing of installed versions. The proofs show that retrieving a package
    after installing it gives it back, that the installed version becomes the
    active one and is listed, and that the metadata is written only after the
    contents were.
  - `database`: an older interface to the same layout, and lookups over the
    metadata files it reads.
  - `pending`, `network`: the requests of the network event loop that wait
    for an answer, kept per key with no key twice; each answer goes to the
    request recorded under its key and removes it, and what the Kademlia
    behaviour is asked (addresses for the routing table, queries for a
    package name, finishing a providers query once it answered).
  - `worker`: joining the network (dial every configured peer in order, then
    bootstrap; the first failure ends it), answering package requests, and
    fetching a package.
  - `config`, `errors`: paths of the root and lock file; the error type.
- `app/` — the program: command line, file system, the libp2p swarm and the
  event loop, which carry out what the library decides.
- `tests/` — tests of the library; file operations are carried out on an
  in-memory table of files.
