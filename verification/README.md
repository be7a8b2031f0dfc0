# edgedb_upgrade

Upgrades of the EdgeDB instances of a machine: which instances are upgraded, to
what, by which steps and in which order.

The library in `src/` decides. `run::upgrade` begins a run; `UpgradeRun::pending`
says what the run waits for, `UpgradeRun::resume` takes the reply, and
`UpgradeRun::failure` says what was being done when something failed. Every
decision is verified against a contract over a mathematical model of the run
(`run::RunView`), and these modules hold what is proved of runs as a whole:

- `course`: tasks are done in order, and a failure ends the run
- `success`: a run that succeeds gives every task its turn, and has done every
  dump, initialization and restore that was planned
- `reach`: what a run can touch
- `safety`: nothing is restored, moved or initialized before it was dumped, and
  no server is left running
- `sequence`: the order of the steps, and what a listing finds
- `progress`: a run comes to an end
- `permutation`: what an upgrade within major versions installs, and that the
  order of the listing makes no difference to it
- `order` and `selection`: the order of versions, and the groups of instances

`app/` carries a run out: it reads directories, talks to the database, runs the
installer, and tells the user. It reaches the rest of the command-line tool
through the traits in `app/host.rs`.
